//! The encoder of BC4 blocks.
//!
//! The endpoints of a block are the highest and the lowest of its 16
//! values, so that the palette divides their span in seven parts; each
//! pixel gets the entry of the palette that is nearest to its value. With
//! dithering a pixel between two entries gets one or the other, as the
//! threshold of its place in the block decides.

use vstd::prelude::*;

use crate::decode::bc::{
    bc4_byte, bc4_group, bc4_index, bc4_key, bc4_lowest, bc4_palette, bc4_value, byte_of, key_of,
    pow8,
};
use crate::encode::bc::{bayer, bayer_threshold, Bc4Options};

verus! {

/// The number that packs the eight indices of group `g`, the first index
/// lowest.
pub open spec fn bc4_group_of(indices: Seq<u8>, g: nat) -> nat {
    let at = 8 * g as int;
    indices[at] as nat + 8 * (indices[at + 1] as nat) + 64 * (indices[at + 2] as nat) + 512 * (
    indices[at + 3] as nat) + 4096 * (indices[at + 4] as nat) + 32768 * (indices[at + 5] as nat)
        + 262144 * (indices[at + 6] as nat) + 2097152 * (indices[at + 7] as nat)
}

/// The block with the given endpoints and indices.
pub open spec fn bc4_block(e0: u8, e1: u8, indices: Seq<u8>) -> Seq<u8> {
    let g0 = bc4_group_of(indices, 0);
    let g1 = bc4_group_of(indices, 1);
    seq![
        e0,
        e1,
        (g0 % 256) as u8,
        (g0 / 256 % 256) as u8,
        (g0 / 65536 % 256) as u8,
        (g1 % 256) as u8,
        (g1 / 256 % 256) as u8,
        (g1 / 65536 % 256) as u8,
    ]
}

/// Eight fields of 3 bits are found again in the number that packs them.
pub proof fn lemma_group_fields(
    d0: nat,
    d1: nat,
    d2: nat,
    d3: nat,
    d4: nat,
    d5: nat,
    d6: nat,
    d7: nat,
)
    requires
        d0 < 8,
        d1 < 8,
        d2 < 8,
        d3 < 8,
        d4 < 8,
        d5 < 8,
        d6 < 8,
        d7 < 8,
    ensures
        ({
            let v = d0 + 8 * d1 + 64 * d2 + 512 * d3 + 4096 * d4 + 32768 * d5 + 262144 * d6
                + 2097152 * d7;
            &&& v < 0x100_0000
            &&& v / 1 % 8 == d0
            &&& v / 8 % 8 == d1
            &&& v / 64 % 8 == d2
            &&& v / 512 % 8 == d3
            &&& v / 4096 % 8 == d4
            &&& v / 32768 % 8 == d5
            &&& v / 262144 % 8 == d6
            &&& v / 2097152 % 8 == d7
        }),
{
    let v7 = d7;
    let v6 = d6 + 8 * v7;
    let v5 = d5 + 8 * v6;
    let v4 = d4 + 8 * v5;
    let v3 = d3 + 8 * v4;
    let v2 = d2 + 8 * v3;
    let v1 = d1 + 8 * v2;
    let v = d0 + 8 * v1;
    assert(v / 8 == v1 && v % 8 == d0);
    assert(v1 / 8 == v2 && v1 % 8 == d1);
    assert(v2 / 8 == v3 && v2 % 8 == d2);
    assert(v3 / 8 == v4 && v3 % 8 == d3);
    assert(v4 / 8 == v5 && v4 % 8 == d4);
    assert(v5 / 8 == v6 && v5 % 8 == d5);
    assert(v6 / 8 == v7 && v6 % 8 == d6);
    assert(v == 64 * v2 + (8 * d1 + d0));
    assert(v / 64 == v2);
    assert(v == 512 * v3 + (64 * d2 + 8 * d1 + d0));
    assert(v / 512 == v3);
    assert(v == 4096 * v4 + (512 * d3 + 64 * d2 + 8 * d1 + d0));
    assert(v / 4096 == v4);
    assert(v == 32768 * v5 + (4096 * d4 + 512 * d3 + 64 * d2 + 8 * d1 + d0));
    assert(v / 32768 == v5);
    assert(v == 262144 * v6 + (32768 * d5 + 4096 * d4 + 512 * d3 + 64 * d2 + 8 * d1 + d0));
    assert(v / 262144 == v6);
    assert(v == 2097152 * v7 + (262144 * d6 + 32768 * d5 + 4096 * d4 + 512 * d3 + 64 * d2 + 8
        * d1 + d0));
    assert(v / 2097152 == v7);
}

/// A number below 2^24 is found again in its three bytes.
pub proof fn lemma_three_bytes(v: nat)
    requires
        v < 0x100_0000,
    ensures
        v % 256 + 256 * (v / 256 % 256) + 65536 * (v / 65536 % 256) == v,
{
}

/// The endpoints and each index of a block are found again in its bytes.
pub proof fn lemma_bc4_block(e0: u8, e1: u8, indices: Seq<u8>, i: nat)
    requires
        indices.len() == 16,
        forall|j: int| 0 <= j < 16 ==> indices[j] < 8,
        i < 16,
    ensures
        bc4_block(e0, e1, indices).len() == 8,
        bc4_block(e0, e1, indices)[0] == e0,
        bc4_block(e0, e1, indices)[1] == e1,
        bc4_index(bc4_block(e0, e1, indices), i) == indices[i as int],
{
    let block = bc4_block(e0, e1, indices);
    let g = i / 8;
    let at = 8 * g as int;
    lemma_group_fields(
        indices[at] as nat,
        indices[at + 1] as nat,
        indices[at + 2] as nat,
        indices[at + 3] as nat,
        indices[at + 4] as nat,
        indices[at + 5] as nat,
        indices[at + 6] as nat,
        indices[at + 7] as nat,
    );
    let v = bc4_group_of(indices, g);
    lemma_three_bytes(v);
    assert(bc4_group(block, g) == v);
}

/// Packs endpoints and indices into the bytes of a block.
pub fn pack_bc4(e0: u8, e1: u8, indices: &[u8; 16]) -> (out: [u8; 8])
    requires
        forall|j: int| 0 <= j < 16 ==> indices@[j] < 8,
    ensures
        out@ == bc4_block(e0, e1, indices@),
{
    let g0: u32 = group_of(indices, 0);
    let g1: u32 = group_of(indices, 8);
    let out = [
        e0,
        e1,
        (g0 % 256) as u8,
        (g0 / 256 % 256) as u8,
        (g0 / 65536 % 256) as u8,
        (g1 % 256) as u8,
        (g1 / 256 % 256) as u8,
        (g1 / 65536 % 256) as u8,
    ];
    assert(out@ =~= bc4_block(e0, e1, indices@));
    out
}

/// Packs the eight indices from index `at` on.
fn group_of(indices: &[u8; 16], at: usize) -> (v: u32)
    requires
        at == 0 || at == 8,
        forall|j: int| 0 <= j < 16 ==> indices@[j] < 8,
    ensures
        v == bc4_group_of(indices@, (at / 8) as nat),
{
    indices[at] as u32 + 8 * (indices[at + 1] as u32) + 64 * (indices[at + 2] as u32) + 512 * (
    indices[at + 3] as u32) + 4096 * (indices[at + 4] as u32) + 32768 * (indices[at + 5] as u32)
        + 262144 * (indices[at + 6] as u32) + 2097152 * (indices[at + 7] as u32)
}

/// The lowest place among the first `n` values.
pub open spec fn lowest_key(values: Seq<u8>, snorm: bool, n: nat) -> int
    decreases n,
{
    if n <= 1 {
        bc4_key(values[0], snorm)
    } else {
        let rest = lowest_key(values, snorm, (n - 1) as nat);
        let last = bc4_key(values[n - 1], snorm);
        if last < rest {
            last
        } else {
            rest
        }
    }
}

/// The highest place among the first `n` values.
pub open spec fn highest_key(values: Seq<u8>, snorm: bool, n: nat) -> int
    decreases n,
{
    if n <= 1 {
        bc4_key(values[0], snorm)
    } else {
        let rest = highest_key(values, snorm, (n - 1) as nat);
        let last = bc4_key(values[n - 1], snorm);
        if last > rest {
            last
        } else {
            rest
        }
    }
}

/// What is added to the place of a pixel, in 32nds of a step of the
/// palette, before it is cut down to a whole number of steps: half a step
/// to round to the nearest, or with dithering the share of a step that the
/// threshold of the pixel asks for.
pub open spec fn bc4_bias(i: nat, dither: bool) -> int {
    if dither {
        (2 * bayer(i) + 1) as int
    } else {
        16
    }
}

/// The step of the palette that a pixel at the place `key` gets, where the
/// palette divides the span from `lo` to `hi` in seven steps.
pub open spec fn bc4_step(key: int, lo: int, hi: int, bias: int) -> int {
    (224 * (key - lo) + bias * (hi - lo)) / (32 * (hi - lo))
}

/// The index of the palette entry that lies `step` steps above the lower
/// endpoint: the lower endpoint is entry 1, the upper endpoint is entry 0,
/// and the entries 2 to 7 lead from the upper down to the lower.
pub open spec fn step_index(step: int) -> u8 {
    if step <= 0 {
        1
    } else if step >= 7 {
        0
    } else {
        (8 - step) as u8
    }
}

/// The index that pixel `i` gets.
#[verifier::opaque]
pub open spec fn bc4_choice(values: Seq<u8>, options: Bc4Options, i: nat) -> u8 {
    let lo = lowest_key(values, options.snorm, 16);
    let hi = highest_key(values, options.snorm, 16);
    if hi == lo {
        0
    } else {
        step_index(bc4_step(bc4_key(values[i as int], options.snorm), lo, hi, bc4_bias(i, options.dither)))
    }
}

/// The block that encodes 16 values.
pub open spec fn spec_compress_bc4(values: Seq<u8>, options: Bc4Options) -> Seq<u8> {
    bc4_block(
        bc4_byte(highest_key(values, options.snorm, 16), options.snorm),
        bc4_byte(lowest_key(values, options.snorm, 16), options.snorm),
        Seq::new(16, |i: int| bc4_choice(values, options, i as nat)),
    )
}

/// The lowest and the highest place are places of values, and every value
/// has its place between them.
pub proof fn lemma_extremes(values: Seq<u8>, snorm: bool, n: nat)
    requires
        1 <= n <= values.len(),
    ensures
        forall|i: int|
            0 <= i < n ==> lowest_key(values, snorm, n) <= #[trigger] bc4_key(values[i], snorm)
                <= highest_key(values, snorm, n),
        exists|i: int| 0 <= i < n && #[trigger] bc4_key(values[i], snorm) == lowest_key(values, snorm, n),
        exists|i: int| 0 <= i < n && #[trigger] bc4_key(values[i], snorm) == highest_key(values, snorm, n),
        bc4_lowest(snorm) <= lowest_key(values, snorm, n) <= highest_key(values, snorm, n) <= 255,
    decreases n,
{
    if n > 1 {
        lemma_extremes(values, snorm, (n - 1) as nat);
        let lo = lowest_key(values, snorm, (n - 1) as nat);
        let hi = highest_key(values, snorm, (n - 1) as nat);
        let i_lo = choose|i: int| 0 <= i < n - 1 && #[trigger] bc4_key(values[i], snorm) == lo;
        let i_hi = choose|i: int| 0 <= i < n - 1 && #[trigger] bc4_key(values[i], snorm) == hi;
        let last = bc4_key(values[n - 1], snorm);
        if last < lo {
            assert(bc4_key(values[n - 1], snorm) == lowest_key(values, snorm, n));
        } else {
            assert(bc4_key(values[i_lo], snorm) == lowest_key(values, snorm, n));
        }
        if last > hi {
            assert(bc4_key(values[n - 1], snorm) == highest_key(values, snorm, n));
        } else {
            assert(bc4_key(values[i_hi], snorm) == highest_key(values, snorm, n));
        }
    } else {
        assert(bc4_key(values[0], snorm) == lowest_key(values, snorm, n));
    }
}

/// A pixel gets one of the steps from 0 to 7.
pub proof fn lemma_step_range(key: int, lo: int, hi: int, bias: int)
    requires
        lo <= key <= hi,
        lo < hi,
        1 <= bias <= 31,
    ensures
        0 <= bc4_step(key, lo, hi, bias) <= 7,
{
    let d = hi - lo;
    let num = 224 * (key - lo) + bias * d;
    assert(0 <= num < 8 * (32 * d)) by (nonlinear_arith)
        requires
            0 <= key - lo <= d,
            d > 0,
            1 <= bias <= 31,
            num == 224 * (key - lo) + bias * d,
    ;
    let m = 32 * d;
    let q = num / m;
    vstd::arithmetic::div_mod::lemma_fundamental_div_mod(num, m);
    vstd::arithmetic::div_mod::lemma_mod_bound(num, m);
    assert(0 <= q <= 7) by (nonlinear_arith)
        requires
            m > 0,
            0 <= num < 8 * m,
            num == m * q + num % m,
            0 <= num % m < m,
    ;
}

/// Encodes 16 values as a BC4 block.
pub fn compress_bc4_block(block: [u8; 16], options: Bc4Options) -> (out: [u8; 8])
    ensures
        out@ == spec_compress_bc4(block@, options),
{
    reveal(bc4_choice);
    let snorm = options.snorm;
    let mut lo: u8 = key_of(block[0], snorm);
    let mut hi: u8 = lo;
    let mut n: usize = 1;
    while n < 16
        invariant
            1 <= n <= 16,
            snorm == options.snorm,
            lo == lowest_key(block@, snorm, n as nat),
            hi == highest_key(block@, snorm, n as nat),
        decreases 16 - n,
    {
        let key: u8 = key_of(block[n], snorm);
        if key < lo {
            lo = key;
        }
        if key > hi {
            hi = key;
        }
        n = n + 1;
    }
    proof {
        lemma_extremes(block@, snorm, 16);
    }
    let mut indices: [u8; 16] = [0u8;16];
    if hi > lo {
        let d: u32 = (hi - lo) as u32;
        let mut i: usize = 0;
        while i < 16
            invariant
                i <= 16,
                snorm == options.snorm,
                lo == lowest_key(block@, snorm, 16),
                hi == highest_key(block@, snorm, 16),
                lo < hi,
                d == hi - lo,
                forall|j: int|
                    0 <= j < 16 ==> lo <= #[trigger] bc4_key(block@[j], snorm) <= hi,
                forall|j: int| 0 <= j < i ==> #[trigger] indices@[j] == bc4_choice(block@, options, j as nat),
                forall|j: int| 0 <= j < 16 ==> #[trigger] indices@[j] < 8,
            decreases 16 - i,
        {
            proof {
                reveal(bc4_choice);
            }
            let key: u8 = key_of(block[i], snorm);
            assert(bc4_key(block@[i as int], snorm) == key);
            let bias: u32 = if options.dither {
                2 * (bayer_threshold(i) as u32) + 1
            } else {
                16
            };
            proof {
                lemma_step_range(key as int, lo as int, hi as int, bias as int);
            }
            assert(bias * d <= 31 * 255) by (nonlinear_arith)
                requires
                    bias <= 31,
                    d <= 255,
            ;
            let step: u32 = (224 * ((key - lo) as u32) + bias * d) / (32 * d);
            indices[i] = if step == 0 {
                1
            } else if step == 7 {
                0
            } else {
                (8 - step) as u8
            };
            i = i + 1;
        }
    }
    assert(indices@ =~= Seq::new(16, |i: int| bc4_choice(block@, options, i as nat)));
    pack_bc4(byte_of(hi, snorm), byte_of(lo, snorm), &indices)
}

/// A block of 16 equal values decodes to those values: the block is
/// encoded without loss. Only the signed byte -128, which stands for the
/// same value as -127, comes back as -127.
pub proof fn lemma_bc4_uniform(values: Seq<u8>, v: u8, options: Bc4Options, i: nat)
    requires
        values.len() == 16,
        forall|j: int| 0 <= j < 16 ==> #[trigger] values[j] == v,
        i < 16,
    ensures
        bc4_value(spec_compress_bc4(values, options), i, options.snorm) == if options.snorm && v
            == 128 {
            129u8
        } else {
            v
        },
{
    reveal(bc4_choice);
    let snorm = options.snorm;
    lemma_extremes(values, snorm, 16);
    let lo = lowest_key(values, snorm, 16);
    let hi = highest_key(values, snorm, 16);
    assert(lo == bc4_key(values[0], snorm));
    assert(hi == bc4_key(values[0], snorm));
    let indices = Seq::new(16, |j: int| bc4_choice(values, options, j as nat));
    assert(forall|j: int| 0 <= j < 16 ==> indices[j] == 0);
    lemma_bc4_block(bc4_byte(hi, snorm), bc4_byte(lo, snorm), indices, i);
}

/// Seven times the value of entry `index` of a palette of eight entries,
/// before it is rounded to a place.
pub open spec fn bc4_scaled_entry(hi: int, lo: int, index: nat) -> int {
    if index == 0 {
        7 * hi
    } else if index == 1 {
        7 * lo
    } else {
        (8 - index) * hi + (index - 1) * lo
    }
}

/// Without dithering each pixel gets the entry of the palette that is
/// nearest to its value: no other entry of the eight is nearer.
pub proof fn lemma_bc4_nearest(values: Seq<u8>, options: Bc4Options, i: nat, other: nat)
    requires
        values.len() == 16,
        !options.dither,
        i < 16,
        other < 8,
        lowest_key(values, options.snorm, 16) < highest_key(values, options.snorm, 16),
    ensures
        ({
            let lo = lowest_key(values, options.snorm, 16);
            let hi = highest_key(values, options.snorm, 16);
            let key = bc4_key(values[i as int], options.snorm);
            let chosen = bc4_choice(values, options, i) as nat;
            vstd::math::abs(7 * key - bc4_scaled_entry(hi, lo, chosen)) <= vstd::math::abs(
                7 * key - bc4_scaled_entry(hi, lo, other),
            )
        }),
{
    reveal(bc4_choice);
    let snorm = options.snorm;
    lemma_extremes(values, snorm, 16);
    let lo = lowest_key(values, snorm, 16);
    let hi = highest_key(values, snorm, 16);
    let key = bc4_key(values[i as int], snorm);
    let d = hi - lo;
    let step = bc4_step(key, lo, hi, 16);
    lemma_step_range(key, lo, hi, 16);
    let x = 7 * (key - lo);
    // the step is the multiple of the span that is nearest to the pixel
    let num = 224 * (key - lo) + 16 * d;
    vstd::arithmetic::div_mod::lemma_fundamental_div_mod(num, 32 * d);
    vstd::arithmetic::div_mod::lemma_mod_bound(num, 32 * d);
    assert(32 * d * step <= num < 32 * d * step + 32 * d);
    assert(32 * d * step == 32 * (step * d)) by (nonlinear_arith);
    let s = step * d;
    assert(2 * s - d <= 2 * x < 2 * s + d);
    let chosen = bc4_choice(values, options, i) as nat;
    assert(bc4_scaled_entry(hi, lo, chosen) == 7 * lo + s) by (nonlinear_arith)
        requires
            0 <= step <= 7,
            d == hi - lo,
            s == step * d,
            chosen == (if step == 0 {
                1nat
            } else if step == 7 {
                0nat
            } else {
                (8 - step) as nat
            }),
            bc4_scaled_entry(hi, lo, chosen) == (if chosen == 0 {
                7 * hi
            } else if chosen == 1 {
                7 * lo
            } else {
                (8 - chosen) * hi + (chosen - 1) * lo
            }),
    ;
    let t: int = if other == 0 {
        7
    } else if other == 1 {
        0
    } else {
        8 - other
    };
    let u = t * d;
    assert(bc4_scaled_entry(hi, lo, other) == 7 * lo + u) by (nonlinear_arith)
        requires
            0 <= t <= 7,
            d == hi - lo,
            u == t * d,
            t == (if other == 0 {
                7
            } else if other == 1 {
                0
            } else {
                8 - other
            }),
            bc4_scaled_entry(hi, lo, other) == (if other == 0 {
                7 * hi
            } else if other == 1 {
                7 * lo
            } else {
                (8 - other) * hi + (other - 1) * lo
            }),
    ;
    // another step lies at least a whole span away from the chosen one
    assert(t == step || u >= s + d || u <= s - d) by (nonlinear_arith)
        requires
            u == t * d,
            s == step * d,
            d > 0,
    ;
}


/// A BC4 block has 8 bytes.
pub proof fn lemma_bc4_len(values: Seq<u8>, options: Bc4Options)
    ensures
        spec_compress_bc4(values, options).len() == 8,
{
}

} // verus!
