//! Binary-coded decimals.
use vstd::prelude::*;

verus! {

pub trait IntoBcd<N> {
    /// Whether `r` is the binary-coded form of `self`.
    spec fn is_bcd(&self, r: N) -> bool;

    fn to_bcd(&self) -> (r: N)
        ensures
            self.is_bcd(r),
    ;
}

/// The two lowest decimal digits, one in each half of a byte.
pub open spec fn bcd_byte(val: int) -> int {
    val % 10 + 16 * (val / 10 % 10)
}

/// The last `n` pairs of decimal digits of `val`, the highest first.
pub open spec fn bcd_bytes(val: int, n: nat) -> Seq<u8>
    decreases n,
{
    if n == 0 {
        Seq::empty()
    } else {
        bcd_bytes(val / 100, (n - 1) as nat).push(bcd_byte(val) as u8)
    }
}

fn convert_into_bcd_internal<const N: usize>(val: u64) -> (r: [u8; N])
    ensures
        r@ == bcd_bytes(val as int, N as nat),
{
    let mut result: [u8; N] = [0u8;N];
    let mut rest: u64 = val;
    let mut left: usize = N;
    assert(result@.skip(N as int) =~= Seq::<u8>::empty());
    assert(bcd_bytes(val as int, N as nat) =~= bcd_bytes(rest as int, left as nat)
        + result@.skip(left as int));
    while left > 0
        invariant
            left <= N,
            result@.len() == N,
            bcd_bytes(val as int, N as nat) == bcd_bytes(rest as int, left as nat)
                + result@.skip(left as int),
        decreases left,
    {
        let digit0: u64 = rest % 10;
        let digit1: u64 = (rest / 10) % 10;
        let byte: u8 = (digit0 + 16 * digit1) as u8;
        let ghost tail = result@.skip(left as int);
        result[left - 1] = byte;
        proof {
            assert(byte == bcd_byte(rest as int));
            assert(bcd_bytes(rest as int, left as nat) == bcd_bytes(
                rest as int / 100,
                (left - 1) as nat,
            ).push(byte));
            assert(result@.skip(left - 1) =~= seq![byte] + tail);
            assert(bcd_bytes(rest as int, left as nat) + tail =~= bcd_bytes(
                rest as int / 100,
                (left - 1) as nat,
            ) + result@.skip(left - 1));
        }
        rest = rest / 100;
        left = left - 1;
    }
    assert(result@.skip(0) =~= result@);
    assert(bcd_bytes(rest as int, 0) + result@ =~= result@);
    result
}

impl IntoBcd<u8> for u8 {
    open spec fn is_bcd(&self, r: u8) -> bool {
        r == bcd_byte(*self as int)
    }

    fn to_bcd(&self) -> (r: u8) {
        let bytes = convert_into_bcd_internal::<1>(*self as u64);
        proof {
            assert(bcd_bytes(*self as int, 1) =~= bcd_bytes(*self as int / 100, 0).push(
                bcd_byte(*self as int) as u8,
            ));
        }
        bytes[0]
    }
}

/// A number below 100 can be told from its binary-coded form.
pub proof fn bcd_keeps_two_digits(val: u8)
    requires
        val < 100,
    ensures
        bcd_byte(val as int) / 16 * 10 + bcd_byte(val as int) % 16 == val,
{
}

} // verus!
