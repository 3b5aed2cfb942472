//! The 16-bit and the 32-bit operations on one list.

use vstd::prelude::*;
use crate::permute::u16_bits::{gather_u16, scatter_u16};
use crate::permute::u32_bits::{
    gather_u32, lemma_gather_bits_u32, lemma_scatter_steps_u32, position_mask_u32, scatter_u32,
};
use crate::permute::{distinct_positions, position, valid_permutation, Permutable};

verus! {

proof fn bits_low_half_step(a32: u32, a16: u16, x: u16, k: u16, o: u16)
    by (bit_vector)
    requires
        a32 as u16 == a16,
        k < 16,
        o < 16,
    ensures
        a32.wrapping_add((((x as u32) >> (k as u32)) & 1) << (o as u32)) as u16 == a16.wrapping_add(
            ((x >> k) & 1) << o,
        ),
        a32.wrapping_add((((x as u32) >> (o as u32)) & 1) << (k as u32)) as u16 == a16.wrapping_add(
            ((x >> o) & 1) << k,
        ),
{
}

proof fn bits_high_half_clear(a: u32, mask: u32, m: u32, o: u32)
    by (bit_vector)
    ensures
        a >> 16 == 0 ==> (a as u16) as u32 == a,
        a >> m == 0 && m <= 16 ==> a >> 16 == 0,
        a & !mask == 0 && mask >> 16 == 0 ==> a >> 16 == 0,
        mask >> 16 == 0 && o < 16 ==> (mask | (1u32 << o)) >> 16 == 0,
        0u32 >> 16 == 0,
{
}

/// The 16-bit steps give the low half of what the 32-bit steps give.
proof fn lemma_low_half(x: u16, perm: Seq<usize>, m: nat)
    requires
        valid_permutation(perm, 16),
        m <= perm.len(),
    ensures
        gather_u32(x as u32, perm, m) as u16 == gather_u16(x, perm, m),
        scatter_u32(x as u32, perm, m) as u16 == scatter_u16(x, perm, m),
    decreases m,
{
    if m > 0 {
        lemma_low_half(x, perm, (m - 1) as nat);
        let k = (m - 1) as u16;
        let o = position(perm, m - 1) as u16;
        bits_low_half_step(
            scatter_u32(x as u32, perm, (m - 1) as nat),
            scatter_u16(x, perm, (m - 1) as nat),
            x,
            k,
            o,
        );
        bits_low_half_step(
            gather_u32(x as u32, perm, (m - 1) as nat),
            gather_u16(x, perm, (m - 1) as nat),
            x,
            o,
            k,
        );
    }
}

/// The mask of positions below 16 has no bit in the high half.
proof fn lemma_mask_low_half(perm: Seq<usize>, m: nat)
    requires
        valid_permutation(perm, 16),
        m <= perm.len(),
    ensures
        position_mask_u32(perm, m) >> 16 == 0,
    decreases m,
{
    if m == 0 {
        bits_high_half_clear(0, 0, 0, 0);
    } else {
        lemma_mask_low_half(perm, (m - 1) as nat);
        bits_high_half_clear(
            0,
            position_mask_u32(perm, (m - 1) as nat),
            0,
            position(perm, m - 1) as u32,
        );
    }
}

/// Both widths do the same along a list for 16 bits: gathering from a 16-bit
/// value and from the same value widened to 32 bits gives the same number;
/// scattering gives the same low 16 bits, and the same number when no
/// position is named twice.
pub proof fn lemma_widths_agree(x: u16, perm: Seq<usize>)
    requires
        valid_permutation(perm, 16),
    ensures
        (x as u32).permute_spec(perm) == x.permute_spec(perm) as u32,
        (x as u32).inv_permute_spec(perm) as u16 == x.inv_permute_spec(perm),
        distinct_positions(perm) ==> (x as u32).inv_permute_spec(perm) == x.inv_permute_spec(
            perm,
        ) as u32,
{
    let n = perm.len();
    let wide = x as u32;
    lemma_low_half(x, perm, n);
    let g = gather_u32(wide, perm, n);
    lemma_gather_bits_u32(wide, perm, n);
    bits_high_half_clear(g, 0, n as u32, 0);
    if distinct_positions(perm) {
        let s = scatter_u32(wide, perm, n);
        lemma_scatter_steps_u32(wide, perm, n);
        lemma_mask_low_half(perm, n);
        bits_high_half_clear(s, position_mask_u32(perm, n), 0, 0);
    }
}

} // verus!
