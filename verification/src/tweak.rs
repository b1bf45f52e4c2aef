//! The tweak, as the cipher takes it: sixteen bytes, little-endian.

use vstd::arithmetic::div_mod::lemma_div_denominator;
use vstd::arithmetic::power::lemma_pow0;
use vstd::arithmetic::power::lemma_pow_positive;
use vstd::arithmetic::power::pow;
use vstd::prelude::*;

verus! {

/// Length of a tweak, in bytes.
pub const TWEAK_SIZE: usize = 16;

/// The first `count` bytes of `value` written little-endian.
pub open spec fn le_bytes(value: nat, count: nat) -> Seq<u8>
    decreases count,
{
    if count == 0 {
        Seq::empty()
    } else {
        seq![(value % 256) as u8] + le_bytes(value / 256, (count - 1) as nat)
    }
}

/// The 16 bytes handed to the cipher for `tweak`: its value, little-endian.
pub open spec fn tweak_bytes(tweak: nat) -> Seq<u8> {
    le_bytes(tweak, TWEAK_SIZE as nat)
}

/// `le_bytes` gives as many bytes as it is asked for.
pub proof fn lemma_le_bytes_len(value: nat, count: nat)
    ensures
        le_bytes(value, count).len() == count,
    decreases count,
{
    if count > 0 {
        lemma_le_bytes_len(value / 256, (count - 1) as nat);
    }
}

/// The byte of `le_bytes` at `index` is the digit of `value` that counts 256
/// to the power `index`: the lowest digit comes first.
pub proof fn lemma_le_bytes_index(value: nat, count: nat, index: nat)
    requires
        index < count,
    ensures
        pow(256, index) > 0,
        le_bytes(value, count)[index as int] as int == (value / (pow(256, index) as nat)) % 256,
    decreases count,
{
    lemma_pow_positive(256, index);
    if index == 0 {
        lemma_pow0(256);
        assert(le_bytes(value, count)[0] == (value % 256) as u8);
        assert(pow(256, index) as nat == 1);
    } else {
        let below = (index - 1) as nat;
        let scale = pow(256, below);
        lemma_le_bytes_len(value / 256, (count - 1) as nat);
        lemma_le_bytes_index(value / 256, (count - 1) as nat, below);
        assert(le_bytes(value, count)[index as int] == le_bytes(
            value / 256,
            (count - 1) as nat,
        )[below as int]);
        assert(pow(256, index) == 256 * scale) by {
            reveal(pow);
        }
        lemma_div_denominator(value as int, 256, scale);
        assert((value / 256) / (scale as nat) == value / (pow(256, index) as nat));
    }
}

/// The tweak zero is sixteen zero bytes, and the tweak 256, that of the
/// first sector, is a one in the second byte.
pub proof fn lemma_tweak_bytes_of_zero_and_256()
    ensures
        tweak_bytes(0) == Seq::new(16, |i: int| 0u8),
        tweak_bytes(256) == Seq::new(16, |i: int| 0u8).update(1, 1u8),
{
    reveal_with_fuel(le_bytes, 17);
    assert(tweak_bytes(0) =~= Seq::new(16, |i: int| 0u8));
    assert(tweak_bytes(256) =~= Seq::new(16, |i: int| 0u8).update(1, 1u8));
}

/// Encodes a tweak for the cipher.
pub fn tweak_to_bytes(tweak: u128) -> (bytes: Vec<u8>)
    ensures
        bytes@ == tweak_bytes(tweak as nat),
        bytes@.len() == TWEAK_SIZE,
{
    let mut bytes: Vec<u8> = Vec::new();
    let mut rest: u128 = tweak;
    let mut i: usize = 0;
    while i < TWEAK_SIZE
        invariant
            i <= TWEAK_SIZE,
            bytes@.len() == i,
            bytes@ + le_bytes(rest as nat, (TWEAK_SIZE - i) as nat) == tweak_bytes(tweak as nat),
        decreases TWEAK_SIZE - i,
    {
        let low: u8 = (rest % 256) as u8;
        proof {
            assert(bytes@.push(low) + le_bytes((rest / 256) as nat, (TWEAK_SIZE - i - 1) as nat)
                =~= bytes@ + le_bytes(rest as nat, (TWEAK_SIZE - i) as nat));
        }
        bytes.push(low);
        rest = rest / 256;
        i += 1;
    }
    proof {
        assert(bytes@ + le_bytes(rest as nat, 0) =~= bytes@);
    }
    bytes
}

} // verus!
