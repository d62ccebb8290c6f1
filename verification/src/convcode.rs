//! Rate-1/2, constraint-length-32 convolutional encoder over the packed
//! 50-bit WSPR payload.

use vstd::prelude::*;

use crate::wspr::ErrorCode;

verus! {

/// Layland-Lushbaugh generator polynomials.
pub const POLY1: u32 = 0xF2D0_5351;
pub const POLY2: u32 = 0xE461_3C47;

/// Even parity of a `u32`: the XOR-fold of all 32 bits.
pub open spec fn spec_parity(v: u32) -> u8 {
    (((v >> 0) ^ (v >> 1) ^ (v >> 2) ^ (v >> 3) ^ (v >> 4) ^ (v >> 5) ^ (v >> 6) ^ (v >> 7) ^ (v
        >> 8) ^ (v >> 9) ^ (v >> 10) ^ (v >> 11) ^ (v >> 12) ^ (v >> 13) ^ (v >> 14) ^ (v >> 15) ^ (
    v >> 16) ^ (v >> 17) ^ (v >> 18) ^ (v >> 19) ^ (v >> 20) ^ (v >> 21) ^ (v >> 22) ^ (v >> 23) ^ (
    v >> 24) ^ (v >> 25) ^ (v >> 26) ^ (v >> 27) ^ (v >> 28) ^ (v >> 29) ^ (v >> 30) ^ (v >> 31))
        & 1) as u8
}

/// compute the even parity of a u32
/// used here as the modulo-2 adder of bits selected by the generator polynomials
/// for the convolutional code
pub fn parity(val: u32) -> (p: u8)
    ensures
        p == spec_parity(val),
{
    let v1: u32 = val ^ (val >> 16);
    let v2: u32 = v1 ^ (v1 >> 8);
    let v3: u32 = v2 ^ (v2 >> 4);
    let v4: u32 = v3 & 0xf;
    proof {
        assert(v4 < 16) by (bit_vector)
            requires
                v4 == v3 & 0xf,
        ;
    }
    let p: u8 = ((0x6996u32 >> v4) & 1) as u8;
    proof {
        assert(((0x6996u32 >> v4) & 1) as u8 == spec_parity(val)) by (bit_vector)
            requires
                v1 == val ^ (val >> 16),
                v2 == v1 ^ (v1 >> 8),
                v3 == v2 ^ (v2 >> 4),
                v4 == v3 & 0xf,
        ;
    }
    p
}

/// Parity is a bit value: always 0 or 1.
pub broadcast proof fn lemma_parity_is_bit(v: u32)
    ensures
        #[trigger] spec_parity(v) == 0 || spec_parity(v) == 1,
{
    assert(spec_parity(v) == 0 || spec_parity(v) == 1) by (bit_vector);
}

/// Every element of the sequence is a bit value (0 or 1).
pub open spec fn bits_valid(s: Seq<u8>) -> bool {
    forall|i: int| 0 <= i < s.len() ==> s[i] == 0 || s[i] == 1
}

/// Bit `i` of the payload zero-extended to the 81-bit flush length.
pub open spec fn spec_ext_bit(input: Seq<u8>, i: int) -> u32 {
    if 0 <= i < 50 {
        input[i] as u32
    } else {
        0u32
    }
}

/// Contents of the 32-bit shift register after bits `0 ..= i` of the
/// extended payload have been shifted in (most recent bit lowest).
pub open spec fn spec_register(input: Seq<u8>, i: int) -> u32
    decreases i + 1,
{
    if i < 0 {
        0u32
    } else {
        (spec_register(input, i - 1) << 1) | spec_ext_bit(input, i)
    }
}

/// The 162 code bits: two parity bits per extended-payload bit, in payload
/// order, from the register masked by the two generator polynomials.
pub open spec fn spec_convolve(input: Seq<u8>) -> Seq<u8> {
    Seq::new(
        162,
        |k: int|
            if k % 2 == 0 {
                spec_parity(spec_register(input, k / 2) & POLY1)
            } else {
                spec_parity(spec_register(input, k / 2) & POLY2)
            },
    )
}

/// Convolutional coder with constraint length K=32, coding rate=1/2, non-systematic, non-recursive
/// Input is the 50 bit source encoded and packed payload
pub fn convolve(input: [u8; 50]) -> (r: Result<[u8; 162], ErrorCode>)
    ensures
        r is Ok <==> bits_valid(input@),
        !bits_valid(input@) ==> r == Err::<[u8; 162], ErrorCode>(ErrorCode::ConvolutionBitSetError),
        r matches Ok(encoded) ==> encoded@ == spec_convolve(input@),
{
    let mut encoded: [u8; 162] = [0; 162];
    let mut register: u32 = 0;

    // check bits are actually only 0 or 1
    let mut i: usize = 0;
    while i < 50
        invariant
            i <= 50,
            forall|j: int| 0 <= j < i ==> input@[j] == 0 || input@[j] == 1,
        decreases 50 - i,
    {
        if input[i] != 0 && input[i] != 1 {
            return Err(ErrorCode::ConvolutionBitSetError);
        }
        i = i + 1;
    }

    // extend data to 81 bits for the tail shiftout of the codec
    let mut data: [u8; 81] = [0; 81];
    let mut i: usize = 0;
    while i < 50
        invariant
            i <= 50,
            forall|j: int| 0 <= j < i ==> data@[j] == input@[j],
            forall|j: int| i <= j < 81 ==> data@[j] == 0,
        decreases 50 - i,
    {
        data[i] = input[i];
        i = i + 1;
    }

    let mut i: usize = 0;
    while i < 81
        invariant
            i <= 81,
            bits_valid(input@),
            forall|j: int| 0 <= j < 50 ==> data@[j] == input@[j],
            forall|j: int| 50 <= j < 81 ==> data@[j] == 0,
            register == spec_register(input@, i - 1),
            forall|k: int| 0 <= k < 2 * i ==> encoded@[k] == spec_convolve(input@)[k],
        decreases 81 - i,
    {
        register = (register << 1) | (data[i] as u32);
        assert(register == spec_register(input@, i as int));
        encoded[i * 2] = parity(register & POLY1);
        encoded[i * 2 + 1] = parity(register & POLY2);
        i = i + 1;
    }

    assert(encoded@ =~= spec_convolve(input@));
    Ok(encoded)
}

} // verus!
