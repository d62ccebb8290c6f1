//! Bit-reversal interleaver for the 162 convolved WSPR data bits.

use vstd::prelude::*;
use vstd::relations::injective_on;
use vstd::set_lib::lemma_int_range;
use vstd::set_lib::lemma_len_subset;
use vstd::set_lib::lemma_map_size;
use vstd::set_lib::set_int_range;

verus! {

/// Bit reversal of a byte: bit `i` of the result is bit `7 - i` of `b`.
pub open spec fn spec_reverse_byte(b: u8) -> u8 {
    ((b >> 7) & 1) | (((b >> 6) & 1) << 1) | (((b >> 5) & 1) << 2) | (((b >> 4) & 1) << 3) | (((b
        >> 3) & 1) << 4) | (((b >> 2) & 1) << 5) | (((b >> 1) & 1) << 6) | ((b & 1) << 7)
}

/// bit magic to reverse the bit positions of a byte
pub fn reverse_byte(b: u8) -> (r: u8)
    ensures
        r == spec_reverse_byte(b),
{
    let x: u64 = ((b as u64 * 0x0802u64) & 0x22110u64) | ((b as u64 * 0x8020u64) & 0x88440u64);
    proof {
        assert(x <= 0xaa550) by (bit_vector)
            requires
                x == (((b as u64 * 0x0802u64) as u64) & 0x22110u64) | (((b as u64 * 0x8020u64)
                    as u64) & 0x88440u64),
        ;
    }
    let y: u64 = x * 0x10101u64;
    let r: u8 = (y >> 16) as u8;
    proof {
        assert((y >> 16) as u8 == spec_reverse_byte(b)) by (bit_vector)
            requires
                x == (((b as u64 * 0x0802u64) as u64) & 0x22110u64) | (((b as u64 * 0x8020u64)
                    as u64) & 0x88440u64),
                y == (x * 0x10101u64) as u64,
        ;
    }
    r
}

/// Reversing a byte twice gives the byte back.
pub proof fn lemma_reverse_involution()
    ensures
        forall|b: u8| #[trigger] spec_reverse_byte(spec_reverse_byte(b)) == b,
{
    assert(forall|b: u8| #[trigger] spec_reverse_byte(spec_reverse_byte(b)) == b)
        by (bit_vector);
}

/// A byte value qualifies when its bit reversal lands inside the frame.
pub open spec fn qualifies(b: int) -> bool {
    spec_reverse_byte(b as u8) < 162
}

/// Number of byte values below `b` that qualify. For a qualifying `b` this
/// is the source position whose bit the interleaver writes to target
/// position `spec_reverse_byte(b)`.
pub open spec fn spec_rank(b: int) -> int
    decreases b,
{
    if b <= 0 {
        0int
    } else {
        spec_rank(b - 1) + if qualifies(b - 1) {
            1int
        } else {
            0int
        }
    }
}

/// Source position whose bit the interleaver places at target position `i`.
pub open spec fn spec_source_of(i: int) -> int {
    spec_rank(spec_reverse_byte(i as u8) as int)
}

/// The set of qualifying byte values below `b`.
spec fn qual_below(b: int) -> Set<int> {
    Set::new(|x: int| 0 <= x < b && qualifies(x))
}

/// `spec_rank(b)` is the cardinality of the qualifying values below `b`.
proof fn lemma_rank_is_card(b: int)
    requires
        b >= 0,
    ensures
        qual_below(b).finite(),
        spec_rank(b) == qual_below(b).len(),
    decreases b,
{
    if b == 0 {
        assert(qual_below(0) =~= Set::empty());
    } else {
        lemma_rank_is_card(b - 1);
        if qualifies(b - 1) {
            assert(qual_below(b) =~= qual_below(b - 1).insert(b - 1));
        } else {
            assert(qual_below(b) =~= qual_below(b - 1));
        }
    }
}

/// The map from a qualifying byte value to its target position.
spec fn target_fn() -> spec_fn(int) -> int {
    |x: int| spec_reverse_byte(x as u8) as int
}

/// `target_fn` is injective on byte values.
proof fn lemma_target_injective(s: Set<int>)
    requires
        forall|x: int| s.contains(x) ==> 0 <= x < 256,
    ensures
        injective_on(target_fn(), s),
{
    lemma_reverse_involution();
    assert forall|x: int, y: int|
        #![trigger s.contains(x), s.contains(y)]
        s.contains(x) && s.contains(y) && target_fn()(x) == target_fn()(y) implies x == y by {
        assert(spec_reverse_byte(spec_reverse_byte(x as u8)) == x as u8);
        assert(spec_reverse_byte(spec_reverse_byte(y as u8)) == y as u8);
    }
}

/// Fewer qualifying values precede a qualifying byte than there are frame
/// positions: the source position read for any target is within the frame.
proof fn lemma_rank_bound(b: int)
    requires
        0 <= b < 256,
        qualifies(b),
    ensures
        0 <= spec_rank(b) < 162,
{
    lemma_rank_is_card(b);
    let s = qual_below(b).insert(b);
    assert(s.len() == spec_rank(b) + 1);
    let f = target_fn();
    lemma_target_injective(s);
    let image = s.map(f);
    lemma_map_size(s, image, f);
    assert(image.subset_of(set_int_range(0, 162))) by {
        assert forall|y: int| image.contains(y) implies set_int_range(0, 162).contains(y) by {
            let x = choose|x: int| s.contains(x) && y == f(x);
            assert(qualifies(x));
        }
    }
    lemma_int_range(0, 162);
    lemma_len_subset(image, set_int_range(0, 162));
}

/// `spec_rank` grows by at most one per step and strictly across a
/// qualifying value.
proof fn lemma_rank_mono(b1: int, b2: int)
    requires
        b1 <= b2,
    ensures
        spec_rank(b1) <= spec_rank(b2),
        b1 >= 0 && qualifies(b1) && b1 < b2 ==> spec_rank(b1) < spec_rank(b2),
    decreases b2 - b1,
{
    if b1 < b2 {
        lemma_rank_mono(b1 + 1, b2);
    }
}

/// Every frame position is the target of exactly 162 qualifying values in
/// total: all 162 source positions are consumed.
proof fn lemma_rank_total()
    ensures
        spec_rank(256) == 162,
{
    lemma_rank_is_card(256);
    let s = qual_below(256);
    let f = target_fn();
    lemma_target_injective(s);
    let image = s.map(f);
    lemma_map_size(s, image, f);
    lemma_reverse_involution();
    assert(image =~= set_int_range(0, 162)) by {
        assert forall|y: int| image.contains(y) implies set_int_range(0, 162).contains(y) by {
            let x = choose|x: int| s.contains(x) && y == f(x);
            assert(qualifies(x));
        }
        assert forall|y: int| set_int_range(0, 162).contains(y) implies image.contains(y) by {
            let x = spec_reverse_byte(y as u8) as int;
            assert(spec_reverse_byte(x as u8) == y as u8);
            assert(s.contains(x) && y == f(x));
        }
    }
    lemma_int_range(0, 162);
}

/// Below the total count, every rank is attained by some qualifying value
/// at or above `b`.
proof fn lemma_rank_attained(b: int, n: int)
    requires
        0 <= b <= 256,
        spec_rank(b) <= n,
        n < spec_rank(256),
    ensures
        exists|c: int| b <= c < 256 && #[trigger] qualifies(c) && spec_rank(c) == n,
    decreases 256 - b,
{
    lemma_rank_mono(b, 256);
    assert(b < 256);
    if qualifies(b) && spec_rank(b) == n {
        assert(b <= b < 256 && qualifies(b) && spec_rank(b) == n);
    } else {
        assert(spec_rank(b + 1) <= n);
        lemma_rank_attained(b + 1, n);
        let c = choose|c: int| b + 1 <= c < 256 && #[trigger] qualifies(c) && spec_rank(c) == n;
        assert(b <= c < 256 && qualifies(c) && spec_rank(c) == n);
    }
}

/// The interleaver permutation is one-to-one on the frame positions
/// 0..162: distinct target positions read distinct source positions.
pub proof fn lemma_interleave_injective()
    ensures
        forall|i1: int, i2: int|
            0 <= i1 < 162 && 0 <= i2 < 162 && i1 != i2 ==> #[trigger] spec_source_of(i1)
                != #[trigger] spec_source_of(i2),
{
    lemma_reverse_involution();
    assert forall|i1: int, i2: int|
        0 <= i1 < 162 && 0 <= i2 < 162 && i1 != i2 implies #[trigger] spec_source_of(i1)
        != #[trigger] spec_source_of(i2) by {
        let b1 = spec_reverse_byte(i1 as u8) as int;
        let b2 = spec_reverse_byte(i2 as u8) as int;
        assert(spec_reverse_byte(b1 as u8) == i1 as u8);
        assert(spec_reverse_byte(b2 as u8) == i2 as u8);
        assert(qualifies(b1) && qualifies(b2));
        if b1 < b2 {
            lemma_rank_mono(b1, b2);
        } else {
            lemma_rank_mono(b2, b1);
        }
    }
}

/// The interleaver permutation is onto the frame positions 0..162: every
/// source position feeds some target position. Together with
/// `lemma_interleave_injective` this makes the permutation a bijection.
pub proof fn lemma_interleave_onto(n: int)
    requires
        0 <= n < 162,
    ensures
        exists|i: int| 0 <= i < 162 && #[trigger] spec_source_of(i) == n,
{
    lemma_reverse_involution();
    lemma_rank_total();
    lemma_rank_attained(0, n);
    let b = choose|c: int| 0 <= c < 256 && #[trigger] qualifies(c) && spec_rank(c) == n;
    let i = spec_reverse_byte(b as u8) as int;
    assert(spec_reverse_byte(i as u8) == b as u8);
    assert(0 <= i < 162 && spec_source_of(i) == n);
}

/// Interleaver for 162 convoluted WSPR data bits
pub fn interleave(data: [u8; 162]) -> (interleaved: [u8; 162])
    ensures
        forall|i: int|
            0 <= i < 162 ==> 0 <= #[trigger] spec_source_of(i) < 162 && interleaved@[i]
                == data@[spec_source_of(i)],
{
    let mut interleaved: [u8; 162] = [0; 162];

    let mut n: usize = 0;
    let mut b: usize = 0;
    while b < 256
        invariant
            b <= 256,
            n == spec_rank(b as int),
            n <= 162,
            forall|i: int|
                0 <= i < 162 && (spec_reverse_byte(i as u8) as int) < b ==> interleaved@[i]
                    == data@[#[trigger] spec_source_of(i)] && 0 <= spec_source_of(i) < 162,
        decreases 256 - b,
    {
        let r = reverse_byte(b as u8);
        if r < 162 {
            proof {
                lemma_rank_bound(b as int);
            }
            interleaved[r as usize] = data[n];
            n = n + 1;
            proof {
                lemma_reverse_involution();
                assert(spec_reverse_byte(r as u8) == b as u8);
                assert forall|i: int|
                    0 <= i < 162 && (spec_reverse_byte(i as u8) as int) < b + 1
                        implies interleaved@[i] == data@[#[trigger] spec_source_of(i)] && 0
                    <= spec_source_of(i) < 162 by {
                    if spec_reverse_byte(i as u8) as int == b as int {
                        assert(spec_reverse_byte(spec_reverse_byte(i as u8)) == i as u8);
                        assert(i == r as int);
                        assert(spec_source_of(i) == spec_rank(b as int));
                    } else {
                        assert(i != r as int);
                    }
                }
            }
        } else {
            proof {
                lemma_reverse_involution();
                assert forall|i: int|
                    0 <= i < 162 && (spec_reverse_byte(i as u8) as int) < b + 1
                        implies interleaved@[i] == data@[#[trigger] spec_source_of(i)] && 0
                    <= spec_source_of(i) < 162 by {
                    if spec_reverse_byte(i as u8) as int == b as int {
                        assert(spec_reverse_byte(spec_reverse_byte(i as u8)) == i as u8);
                        assert(i == r as int);
                    }
                }
            }
        }
        b = b + 1;
    }
    interleaved
}

} // verus!
