//! Population counts and the nearest-pattern search over 64-bit coverage masks.
use vstd::prelude::*;

verus! {

/// Bit `i` of `x`, as 0 or 1.
pub open spec fn bit_of(x: u64, i: u64) -> u64 {
    (x >> i) & 1
}

/// Number of set bits among the lowest `n` bits of `x`.
pub open spec fn ones_below(x: u64, n: nat) -> nat
    decreases n,
{
    if n == 0 {
        0
    } else {
        (ones_below(x, (n - 1) as nat) + bit_of(x, (n - 1) as u64)) as nat
    }
}

/// Number of bits in which two 64-bit patterns differ.
pub open spec fn hamming(a: u64, b: u64) -> nat {
    ones_below(a ^ b, 64)
}

/// Number of set bits of a 32-bit word, counted by SWAR: pairs, nibbles,
/// bytes, then two half-word additions.
pub fn bit_count(x: u32) -> (r: usize)
    ensures
        r == ones_below(x as u64, 32),
{
    let mut mask: u32 = (85u32 << 8u32) | 85u32;
    mask = (mask << 16u32) | mask;
    assert(mask == 0x5555_5555u32) by (bit_vector)
        requires
            mask == ((85u32 << 8u32) | 85u32) << 16u32 | ((85u32 << 8u32) | 85u32),
    ;
    assert(((x >> 1u32) & 0x5555_5555u32) + (x & 0x5555_5555u32) <= u32::MAX) by (bit_vector);
    let s1: u32 = ((x >> 1u32) & mask) + (x & mask);
    mask = (51u32 << 8u32) | 51u32;
    mask = (mask << 16u32) | mask;
    assert(mask == 0x3333_3333u32) by (bit_vector)
        requires
            mask == ((51u32 << 8u32) | 51u32) << 16u32 | ((51u32 << 8u32) | 51u32),
    ;
    assert(((s1 >> 2u32) & 0x3333_3333u32) + (s1 & 0x3333_3333u32) <= u32::MAX) by (bit_vector);
    let s2: u32 = ((s1 >> 2u32) & mask) + (s1 & mask);
    mask = (15u32 << 8u32) | 15u32;
    mask = (mask << 16u32) | mask;
    assert(mask == 0x0f0f_0f0fu32) by (bit_vector)
        requires
            mask == ((15u32 << 8u32) | 15u32) << 16u32 | ((15u32 << 8u32) | 15u32),
    ;
    assert(((s2 >> 4u32) & 0x0f0f_0f0fu32) + (s2 & 0x0f0f_0f0fu32) <= u32::MAX) by (bit_vector);
    let s3: u32 = ((s2 >> 4u32) & mask) + (s2 & mask);
    mask = (255u32 << 16u32) | 255u32;
    assert(mask == 0x00ff_00ffu32) by (bit_vector)
        requires
            mask == (255u32 << 16u32) | 255u32,
    ;
    assert(((s3 >> 8u32) & 0x00ff_00ffu32) + (s3 & 0x00ff_00ffu32) <= u32::MAX) by (bit_vector);
    let s4: u32 = ((s3 >> 8u32) & mask) + (s3 & mask);
    mask = (255u32 << 8u32) | 255u32;
    assert(mask == 0x0000_ffffu32) by (bit_vector)
        requires
            mask == (255u32 << 8u32) | 255u32,
    ;
    assert(((s4 >> 16u32) & 0x0000_ffffu32) + (s4 & 0x0000_ffffu32) <= u32::MAX) by (bit_vector);
    let s5: u32 = ((s4 >> 16u32) & mask) + (s4 & mask);
    let ghost y = x as u64;
    assert(s5 == ((y >> 0u64) & 1) + ((y >> 1u64) & 1) + ((y >> 2u64) & 1) + ((y >> 3u64) & 1)
                + ((y >> 4u64) & 1) + ((y >> 5u64) & 1) + ((y >> 6u64) & 1) + ((y >> 7u64) & 1)
                + ((y >> 8u64) & 1) + ((y >> 9u64) & 1) + ((y >> 10u64) & 1) + ((y >> 11u64) & 1)
                + ((y >> 12u64) & 1) + ((y >> 13u64) & 1) + ((y >> 14u64) & 1) + ((y >> 15u64) & 1)
                + ((y >> 16u64) & 1) + ((y >> 17u64) & 1) + ((y >> 18u64) & 1) + ((y >> 19u64) & 1)
                + ((y >> 20u64) & 1) + ((y >> 21u64) & 1) + ((y >> 22u64) & 1) + ((y >> 23u64) & 1)
                + ((y >> 24u64) & 1) + ((y >> 25u64) & 1) + ((y >> 26u64) & 1) + ((y >> 27u64) & 1)
                + ((y >> 28u64) & 1) + ((y >> 29u64) & 1) + ((y >> 30u64) & 1) + ((y >> 31u64) & 1)) by (bit_vector)
        requires
            y == x as u64,
            s1 == ((x >> 1u32) & 0x5555_5555u32) + (x & 0x5555_5555u32),
            s2 == ((s1 >> 2u32) & 0x3333_3333u32) + (s1 & 0x3333_3333u32),
            s3 == ((s2 >> 4u32) & 0x0f0f_0f0fu32) + (s2 & 0x0f0f_0f0fu32),
            s4 == ((s3 >> 8u32) & 0x00ff_00ffu32) + (s3 & 0x00ff_00ffu32),
            s5 == ((s4 >> 16u32) & 0x0000_ffffu32) + (s4 & 0x0000_ffffu32),
    ;
    proof {
        reveal_with_fuel(ones_below, 33);
    }
    s5 as usize
}

proof fn lemma_ones_below_bound(x: u64, n: nat)
    ensures
        ones_below(x, n) <= n,
    decreases n,
{
    if n > 0 {
        lemma_ones_below_bound(x, (n - 1) as nat);
        let k = (n - 1) as u64;
        assert((x >> k) & 1 <= 1) by (bit_vector);
    }
}

proof fn lemma_ones_below_same_bits(x: u64, y: u64, n: nat)
    requires
        forall|i: u64| i < n ==> bit_of(x, i) == bit_of(y, i),
    ensures
        ones_below(x, n) == ones_below(y, n),
    decreases n,
{
    if n > 0 {
        lemma_ones_below_same_bits(x, y, (n - 1) as nat);
    }
}

/// The count over 32 + n bits splits into the low word and `n` bits of the high word.
proof fn lemma_ones_below_split(x: u64, n: nat)
    requires
        n <= 32,
    ensures
        ones_below(x, 32 + n) == ones_below(x & 0xffff_ffffu64, 32) + ones_below(x >> 32u64, n),
    decreases n,
{
    if n == 0 {
        assert forall|i: u64| i < 32 implies bit_of(x, i) == bit_of(x & 0xffff_ffffu64, i) by {
            assert((x >> i) & 1 == ((x & 0xffff_ffffu64) >> i) & 1) by (bit_vector)
                requires
                    i < 32,
            ;
        }
        lemma_ones_below_same_bits(x, x & 0xffff_ffffu64, 32);
    } else {
        lemma_ones_below_split(x, (n - 1) as nat);
        let k = (n - 1) as u64;
        assert(((x >> 32u64) >> k) & 1 == (x >> (k + 32)) & 1) by (bit_vector)
            requires
                k < 32,
        ;
        assert((32 + n - 1) as u64 == k + 32);
    }
}

/// Number of bits in which `a` and `b` differ, counted word by word.
pub fn pattern_distance(a: u64, b: u64) -> (r: usize)
    ensures
        r == hamming(a, b),
        r <= 64,
{
    let diff: u64 = a ^ b;
    assert(diff >> 32u64 <= 0xffff_ffffu64) by (bit_vector);
    let high: u32 = (diff >> 32u64) as u32;
    let low: u32 = (diff & 0xffff_ffffu64) as u32;
    let hc = bit_count(high);
    let lc = bit_count(low);
    proof {
        lemma_ones_below_bound(high as u64, 32);
        lemma_ones_below_bound(low as u64, 32);
        lemma_ones_below_split(diff, 32);
        assert(diff & 0xffff_ffffu64 <= 0xffff_ffffu64) by (bit_vector);
    }
    hc + lc
}

/// `k` is the first position whose pattern lies at distance one from `group`.
pub open spec fn is_first_near(groups: Seq<u64>, group: u64, k: int) -> bool {
    &&& 0 <= k < groups.len()
    &&& hamming(groups[k], group) == 1
    &&& forall|j: int| 0 <= j < k ==> hamming(groups[j], group) != 1
}

/// How many patterns the search looks at: up to and including the first one
/// at distance one, or all of them when there is none.
pub open spec fn scan_end(groups: Seq<u64>, group: u64) -> int {
    if exists|k: int| is_first_near(groups, group, k) {
        (choose|k: int| is_first_near(groups, group, k)) + 1
    } else {
        groups.len() as int
    }
}

/// `i` is the earliest of the patterns before `end` at the least distance from `group`.
pub open spec fn is_first_closest(groups: Seq<u64>, group: u64, end: int, i: int) -> bool {
    &&& 0 <= i < end <= groups.len()
    &&& forall|j: int| 0 <= j < end ==> hamming(groups[i], group) <= hamming(groups[j], group)
    &&& forall|j: int| 0 <= j < i ==> hamming(groups[j], group) > hamming(groups[i], group)
}

/// Position of the pattern nearest to `group` by Hamming distance. The search
/// stops at the first pattern at distance one; among equally near patterns the
/// earliest wins. `None` only for an empty list.
pub fn find_closest_group(groups: &[u64], group: u64) -> (r: Option<usize>)
    ensures
        r is None <==> groups@.len() == 0,
        r matches Some(i) ==> is_first_closest(groups@, group, scan_end(groups@, group), i as int),
{
    let mut min: Option<usize> = None;
    let mut min_distance: usize = usize::MAX;
    let mut i: usize = 0;
    while i < groups.len()
        invariant
            i <= groups@.len(),
            forall|j: int| 0 <= j < i ==> hamming(groups@[j], group) != 1,
            min is None <==> i == 0,
            min is None ==> min_distance == usize::MAX,
            min matches Some(m) ==> {
                &&& is_first_closest(groups@, group, i as int, m as int)
                &&& min_distance == hamming(groups@[m as int], group)
            },
        decreases groups@.len() - i,
    {
        let distance = pattern_distance(groups[i], group);
        if distance < min_distance {
            min_distance = distance;
            min = Some(i);
        }
        if distance == 1 {
            proof {
                assert(is_first_near(groups@, group, i as int));
                assert forall|k: int| is_first_near(groups@, group, k) implies k == i by {
                    if k < i {
                    } else if k > i {
                        assert(hamming(groups@[i as int], group) != 1);
                    }
                }
            }
            return min;
        }
        i += 1;
    }
    proof {
        if exists|k: int| is_first_near(groups@, group, k) {
            let k = choose|k: int| is_first_near(groups@, group, k);
            assert(hamming(groups@[k], group) != 1);
        }
    }
    min
}

} // verus!
