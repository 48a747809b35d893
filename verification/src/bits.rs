//! Classification of pulses into bits and packing of bits into bytes.

use vstd::prelude::*;
use vstd::arithmetic::power2::{lemma2_to64, lemma_pow2_strictly_increases, lemma_pow2_unfold, pow2};

verus! {

/// Longest high pulse, in microseconds, that still counts as a zero bit.
pub const BIT_THRESHOLD_US: u32 = 20;

/// Number of bits in a frame.
pub const FRAME_BITS: u8 = 40;

/// The bit that a high pulse of `high_us` microseconds stands for: a one if
/// the pulse is longer than the threshold, a zero otherwise.
pub open spec fn bit_of_pulse(high_us: nat) -> bool {
    high_us > BIT_THRESHOLD_US
}

/// The number that a string of bits spells, most significant bit first.
pub open spec fn pack(bits: Seq<bool>) -> nat
    decreases bits.len(),
{
    if bits.len() == 0 {
        0
    } else {
        2 * pack(bits.drop_last()) + if bits.last() {
            1nat
        } else {
            0nat
        }
    }
}

/// The bits received so far that belong to byte `k` of the frame.
pub open spec fn byte_bits(bits: Seq<bool>, k: int) -> Seq<bool> {
    let len = bits.len() as int;
    let lo = if 8 * k < len { 8 * k } else { len };
    let hi = if 8 * k + 8 < len { 8 * k + 8 } else { len };
    bits.subrange(lo, hi)
}

/// Byte `k` of the frame as far as it has been received: its leading bits,
/// not yet shifted up to their final place.
pub open spec fn byte_at(bits: Seq<bool>, k: int) -> nat {
    pack(byte_bits(bits, k))
}

/// The five bytes spelled by the received bits, in wire order.
pub open spec fn frame_of(bits: Seq<bool>) -> Seq<u8> {
    Seq::new(5, |k: int| byte_at(bits, k) as u8)
}

/// Classifies a high pulse of `high_us` microseconds as a bit.
pub fn classify_pulse(high_us: u32) -> (bit: bool)
    ensures
        bit == bit_of_pulse(high_us as nat),
        high_us <= 20 ==> !bit,
        high_us >= 21 ==> bit,
{
    high_us > BIT_THRESHOLD_US
}

/// Appends one bit to a byte that is being received most significant bit
/// first.
pub fn shift_in(partial: u8, bit: bool) -> (byte: u8)
    requires
        partial < 128,
    ensures
        byte == 2 * partial + if bit { 1int } else { 0int },
{
    if bit {
        2 * partial + 1
    } else {
        2 * partial
    }
}

/// A string of `n` bits spells a number below two to the `n`.
pub proof fn lemma_pack_bound(bits: Seq<bool>)
    ensures
        pack(bits) < pow2(bits.len()),
    decreases bits.len(),
{
    if bits.len() > 0 {
        lemma_pow2_unfold(bits.len());
        lemma_pack_bound(bits.drop_last());
    } else {
        lemma2_to64();
    }
}

/// At most eight bits spell a number that fits a byte, at most seven a number
/// that leaves room for one more bit.
pub proof fn lemma_pack_fits(bits: Seq<bool>)
    ensures
        bits.len() <= 8 ==> pack(bits) < 256,
        bits.len() <= 7 ==> pack(bits) < 128,
{
    lemma_pack_bound(bits);
    lemma2_to64();
    if bits.len() < 8 {
        lemma_pow2_strictly_increases(bits.len(), 8);
    }
    if bits.len() < 7 {
        lemma_pow2_strictly_increases(bits.len(), 7);
    }
}

/// Appending a bit doubles the number spelled so far and adds the bit.
pub proof fn lemma_pack_push(bits: Seq<bool>, bit: bool)
    ensures
        pack(bits.push(bit)) == 2 * pack(bits) + if bit { 1nat } else { 0nat },
{
    assert(bits.push(bit).drop_last() =~= bits);
}

/// Receiving one more bit changes the byte that is being filled, and no other.
pub proof fn lemma_byte_at_push(bits: Seq<bool>, bit: bool, k: int)
    requires
        0 <= k,
    ensures
        k == bits.len() / 8 ==> byte_at(bits.push(bit), k) == 2 * byte_at(bits, k) + if bit {
            1nat
        } else {
            0nat
        },
        k != bits.len() / 8 ==> byte_at(bits.push(bit), k) == byte_at(bits, k),
        byte_bits(bits, k).len() <= 8,
        k == bits.len() / 8 ==> byte_bits(bits, k).len() <= 7,
{
    let len = bits.len() as int;
    let more = bits.push(bit);
    if k == len / 8 {
        assert(byte_bits(more, k) =~= byte_bits(bits, k).push(bit));
        lemma_pack_push(byte_bits(bits, k), bit);
    } else {
        assert(byte_bits(more, k) =~= byte_bits(bits, k));
    }
}

/// Every byte of the frame, complete or not, fits in eight bits.
pub proof fn lemma_byte_at_fits(bits: Seq<bool>, k: int)
    requires
        0 <= k,
    ensures
        byte_at(bits, k) < 256,
        k == bits.len() / 8 ==> byte_at(bits, k) < 128,
        8 * k >= bits.len() ==> byte_at(bits, k) == 0,
{
    lemma_pack_fits(byte_bits(bits, k));
}

/// The `n` low bits of `value`, most significant first.
pub open spec fn bits_of(value: nat, n: nat) -> Seq<bool>
    decreases n,
{
    if n == 0 {
        Seq::empty()
    } else {
        bits_of(value / 2, (n - 1) as nat).push(value % 2 == 1)
    }
}

/// The forty bits of a frame in the order in which they travel: byte by
/// byte, each most significant bit first.
pub open spec fn wire_bits(frame: Seq<u8>) -> Seq<bool> {
    Seq::new(40, |i: int| bits_of(frame[i / 8] as nat, 8)[i % 8])
}

/// Spelling a number in `n` bits gives `n` bits.
pub proof fn lemma_bits_of_len(value: nat, n: nat)
    ensures
        bits_of(value, n).len() == n,
    decreases n,
{
    if n > 0 {
        lemma_bits_of_len(value / 2, (n - 1) as nat);
    }
}

/// Packing undoes spelling: a number below two to the `n`, spelled in `n`
/// bits and packed again, is the number.
pub proof fn lemma_pack_bits_of(value: nat, n: nat)
    requires
        value < pow2(n),
    ensures
        pack(bits_of(value, n)) == value,
    decreases n,
{
    if n == 0 {
        lemma2_to64();
    } else {
        lemma_pow2_unfold(n);
        lemma_pack_bits_of(value / 2, (n - 1) as nat);
        lemma_pack_push(bits_of(value / 2, (n - 1) as nat), value % 2 == 1);
    }
}

/// A frame sent bit by bit and packed on arrival is the frame that was sent.
pub proof fn lemma_frame_of_wire_bits(frame: Seq<u8>)
    requires
        frame.len() == 5,
    ensures
        wire_bits(frame).len() == 40,
        frame_of(wire_bits(frame)) == frame,
{
    let wire = wire_bits(frame);
    assert forall|k: int| 0 <= k < 5 implies frame_of(wire)[k] == frame[k] by {
        let spelled = bits_of(frame[k] as nat, 8);
        lemma_bits_of_len(frame[k] as nat, 8);
        lemma2_to64();
        lemma_pack_bits_of(frame[k] as nat, 8);
        assert(byte_bits(wire, k) =~= spelled);
    }
    assert(frame_of(wire) =~= frame);
}

} // verus!
