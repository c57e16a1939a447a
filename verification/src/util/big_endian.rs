//! Big-endian interpretation of byte sequences.

use vstd::prelude::*;

verus! {

/// 256 to the power `n`: how many values `n` bytes can spell out.
pub open spec fn radix_power(n: nat) -> nat
    decreases n,
{
    if n == 0 {
        1
    } else {
        256 * radix_power((n - 1) as nat)
    }
}

/// The natural number that `bytes` spell out, most significant byte first.
pub open spec fn be_unsigned(bytes: Seq<u8>) -> nat
    decreases bytes.len(),
{
    if bytes.len() == 0 {
        0
    } else {
        be_unsigned(bytes.drop_last()) * 256 + bytes.last() as nat
    }
}

/// The integer that `bytes` spell out in two's complement, most significant
/// byte first: the top bit of the first byte carries the sign.
pub open spec fn be_signed(bytes: Seq<u8>) -> int {
    if bytes.len() > 0 && bytes[0] >= 128 {
        be_unsigned(bytes) - radix_power(bytes.len())
    } else {
        be_unsigned(bytes) as int
    }
}

/// The powers of 256 that the fixed widths need.
pub proof fn lemma_radix_powers()
    ensures
        radix_power(0) == 1,
        radix_power(1) == 0x100,
        radix_power(2) == 0x1_0000,
        radix_power(3) == 0x100_0000,
        radix_power(4) == 0x1_0000_0000,
{
    reveal_with_fuel(radix_power, 5);
}

/// `n` bytes spell out a number below 256^n.
pub proof fn lemma_be_unsigned_bound(bytes: Seq<u8>)
    ensures
        be_unsigned(bytes) < radix_power(bytes.len()),
    decreases bytes.len(),
{
    if bytes.len() > 0 {
        lemma_be_unsigned_bound(bytes.drop_last());
    }
}

/// The first byte weighs 256^(n-1): the number spelt out is the first byte
/// times that weight plus what the remaining bytes spell out.
pub proof fn lemma_be_unsigned_leading(bytes: Seq<u8>)
    requires
        bytes.len() > 0,
    ensures
        be_unsigned(bytes) == bytes[0] * radix_power((bytes.len() - 1) as nat) + be_unsigned(
            bytes.drop_first(),
        ),
    decreases bytes.len(),
{
    let tail = bytes.drop_first();
    if bytes.len() == 1 {
        assert(be_unsigned(bytes.drop_last()) == 0);
        assert(be_unsigned(tail) == 0);
        assert(radix_power(0) == 1);
        assert(bytes[0] * radix_power(0) == bytes[0]);
        assert(bytes.last() == bytes[0]);
    } else {
        let front = bytes.drop_last();
        lemma_be_unsigned_leading(front);
        assert(front.drop_first() =~= tail.drop_last());
        assert(tail.last() == bytes.last());
        assert(front[0] == bytes[0]);
        let weight = radix_power((front.len() - 1) as nat);
        let inner = be_unsigned(front.drop_first());
        let lead = bytes[0] as int;
        assert(radix_power((bytes.len() - 1) as nat) == 256 * weight);
        assert(be_unsigned(tail) == inner * 256 + bytes.last());
        assert(be_unsigned(bytes) == be_unsigned(front) * 256 + bytes.last());
        let full = radix_power((bytes.len() - 1) as nat);
        assert((lead * weight + inner) * 256 == lead * full + inner * 256) by (nonlinear_arith)
            requires
                full == 256 * weight,
        ;
    }
}

/// Written out for the four widths that the formats use.
pub proof fn lemma_be_unsigned_fixed(bytes: Seq<u8>)
    ensures
        bytes.len() == 1 ==> be_unsigned(bytes) == bytes[0],
        bytes.len() == 2 ==> be_unsigned(bytes) == bytes[0] * 0x100 + bytes[1],
        bytes.len() == 3 ==> be_unsigned(bytes) == bytes[0] * 0x1_0000 + bytes[1] * 0x100
            + bytes[2],
        bytes.len() == 4 ==> be_unsigned(bytes) == bytes[0] * 0x100_0000 + bytes[1] * 0x1_0000
            + bytes[2] * 0x100 + bytes[3],
{
    reveal_with_fuel(be_unsigned, 5);
    if bytes.len() == 2 {
        assert(bytes.drop_last()[0] == bytes[0]);
    }
    if bytes.len() == 3 {
        assert(bytes.drop_last().drop_last()[0] == bytes[0]);
        assert(bytes.drop_last().last() == bytes[1]);
    }
    if bytes.len() == 4 {
        assert(bytes.drop_last().drop_last().drop_last()[0] == bytes[0]);
        assert(bytes.drop_last().drop_last().last() == bytes[1]);
        assert(bytes.drop_last().last() == bytes[2]);
    }
}

/// A two's-complement reading lies in the range of its width.
pub proof fn lemma_be_signed_range(bytes: Seq<u8>)
    requires
        bytes.len() > 0,
    ensures
        -(radix_power(bytes.len()) / 2) <= be_signed(bytes) < radix_power(bytes.len()) / 2,
{
    lemma_be_unsigned_leading(bytes);
    lemma_be_unsigned_bound(bytes.drop_first());
    let weight = radix_power((bytes.len() - 1) as nat);
    assert(radix_power(bytes.len()) == 256 * weight);
    let lead = bytes[0] as int;
    if lead >= 128 {
        assert(lead * weight >= 128 * weight) by (nonlinear_arith)
            requires
                lead >= 128,
                weight >= 0,
        ;
        assert(lead * weight <= 255 * weight) by (nonlinear_arith)
            requires
                lead <= 255,
                weight >= 0,
        ;
    } else {
        assert(lead * weight <= 127 * weight) by (nonlinear_arith)
            requires
                lead <= 127,
                weight >= 0,
        ;
    }
}

/// The ranges of the four fixed widths, for every reading that a proof mentions.
pub broadcast proof fn lemma_fixed_width_ranges(bytes: Seq<u8>)
    ensures
        #![trigger be_unsigned(bytes)]
        bytes.len() == 1 ==> be_unsigned(bytes) < 0x100 && radix_power(bytes.len()) == 0x100,
        bytes.len() == 2 ==> be_unsigned(bytes) < 0x1_0000 && radix_power(bytes.len())
            == 0x1_0000,
        bytes.len() == 3 ==> be_unsigned(bytes) < 0x100_0000 && radix_power(bytes.len())
            == 0x100_0000,
        bytes.len() == 4 ==> be_unsigned(bytes) < 0x1_0000_0000 && radix_power(bytes.len())
            == 0x1_0000_0000,
        bytes.len() > 0 && bytes[0] >= 128 ==> be_unsigned(bytes) >= radix_power(bytes.len()) / 2,
        bytes.len() > 0 && bytes[0] < 128 ==> be_unsigned(bytes) < radix_power(bytes.len()) / 2,
{
    lemma_radix_powers();
    lemma_be_unsigned_bound(bytes);
    if bytes.len() > 0 {
        lemma_be_signed_range(bytes);
    }
}

/// A signed reading is negative exactly when the top bit of the first byte is set.
pub proof fn lemma_be_signed_sign(bytes: Seq<u8>)
    requires
        bytes.len() > 0,
    ensures
        be_signed(bytes) < 0 <==> bytes[0] >= 128,
{
    lemma_be_unsigned_bound(bytes);
}

} // verus!
