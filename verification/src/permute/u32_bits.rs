//! Scattering and gathering the bits of a `u32`.

use vstd::prelude::*;
use crate::permute::{distinct_positions, position, valid_permutation, Permutable};

verus! {

/// The first `m` steps of scattering `x`: packed bits below `m` moved to
/// their positions and added up.
pub open spec fn scatter_u32(x: u32, perm: Seq<usize>, m: nat) -> u32
    decreases m,
{
    if m == 0 {
        0
    } else {
        scatter_u32(x, perm, (m - 1) as nat).wrapping_add(
            ((x >> ((m - 1) as u32)) & 1) << (position(perm, m - 1) as u32),
        )
    }
}

/// The first `m` steps of gathering from `x`: the bits at the positions of
/// packed bits below `m`, moved down and added up.
pub open spec fn gather_u32(x: u32, perm: Seq<usize>, m: nat) -> u32
    decreases m,
{
    if m == 0 {
        0
    } else {
        gather_u32(x, perm, (m - 1) as nat).wrapping_add(
            ((x >> (position(perm, m - 1) as u32)) & 1) << ((m - 1) as u32),
        )
    }
}

/// The positions of packed bits below `m`, as a mask.
pub open spec fn position_mask_u32(perm: Seq<usize>, m: nat) -> u32
    decreases m,
{
    if m == 0 {
        0
    } else {
        position_mask_u32(perm, (m - 1) as nat) | (1u32 << (position(perm, m - 1) as u32))
    }
}

/// The lowest `n` bits, as a mask.
pub open spec fn low_mask_u32(n: u32) -> u32 {
    if n >= 32 {
        0xffff_ffffu32
    } else {
        !(0xffff_ffffu32 << n)
    }
}

proof fn bits_disjoint_sum_u32(a: u32, t: u32)
    by (bit_vector)
    requires
        a & t == 0,
    ensures
        a + t == a | t,
{
}

proof fn bits_scatter_step_u32(s: u32, mask: u32, x: u32, k: u32, o: u32)
    by (bit_vector)
    requires
        s & !mask == 0,
        (mask >> o) & 1 == 0,
        o < 32,
    ensures
        s & (((x >> k) & 1) << o) == 0,
        (s | (((x >> k) & 1) << o)) & !(mask | (1u32 << o)) == 0,
        ((s | (((x >> k) & 1) << o)) >> o) & 1 == (x >> k) & 1,
{
}

proof fn bits_other_position_u32(s: u32, x: u32, k: u32, o: u32, j: u32)
    by (bit_vector)
    requires
        o != j,
        o < 32,
        j < 32,
    ensures
        ((s | (((x >> k) & 1) << o)) >> j) & 1 == (s >> j) & 1,
        ((s | (1u32 << o)) >> j) & 1 == (s >> j) & 1,
{
}

proof fn bits_gather_step_u32(g: u32, x: u32, k: u32, o: u32)
    by (bit_vector)
    requires
        k < 32,
        g >> k == 0,
    ensures
        g & (((x >> o) & 1) << k) == 0,
        ((g | (((x >> o) & 1) << k)) >> k) & 1 == (x >> o) & 1,
        k < 31 ==> (g | (((x >> o) & 1) << k)) >> ((k + 1) as u32) == 0,
{
}

proof fn bits_low_mask_step_u32(x: u32, k: u32)
    by (bit_vector)
    requires
        k < 32,
    ensures
        (x & low_mask_u32(k)) & (((x >> k) & 1) << k) == 0,
        (x & low_mask_u32(k)) | (((x >> k) & 1) << k) == x & low_mask_u32((k + 1) as u32),
{
}

proof fn bits_position_mask_step_u32(y: u32, mask: u32, o: u32)
    by (bit_vector)
    requires
        (mask >> o) & 1 == 0,
        o < 32,
    ensures
        (y & mask) & (((y >> o) & 1) << o) == 0,
        (y & mask) | (((y >> o) & 1) << o) == y & (mask | (1u32 << o)),
{
}

proof fn bits_masked_u32(x: u32, n: u32, mask: u32)
    by (bit_vector)
    ensures
        n <= 32 && x >> n == 0 ==> x & low_mask_u32(n) == x,
        x & !mask == 0 ==> x & mask == x,
        x & low_mask_u32(0) == 0,
        x & 0 == 0,
{
}

proof fn bits_clear_u32(x: u32, n: u32, mask: u32, k: u32)
    by (bit_vector)
    ensures
        x >> n == 0 && n <= k < 32 ==> (x >> k) & 1 == 0,
        x & !mask == 0 && (mask >> k) & 1 == 0 ==> (x >> k) & 1 == 0,
{
}

/// A position that none of the first `m` packed bits has is not in their
/// mask.
proof fn lemma_mask_clear_u32(perm: Seq<usize>, m: nat, o: u32)
    requires
        valid_permutation(perm, 32),
        m <= perm.len(),
        o < 32,
        forall|k: int| 0 <= k < m ==> position(perm, k) != o,
    ensures
        (position_mask_u32(perm, m) >> o) & 1 == 0,
    decreases m,
{
    if m == 0 {
        assert((0u32 >> o) & 1 == 0) by (bit_vector);
    } else {
        lemma_mask_clear_u32(perm, (m - 1) as nat, o);
        let done = position_mask_u32(perm, (m - 1) as nat);
        let p = position(perm, m - 1) as u32;
        bits_other_position_u32(done, 0, 0, p, o);
    }
}

/// Without repeated positions, the position of a packed bit that is still to
/// come is not in the mask of those done.
proof fn lemma_mask_clear_ahead_u32(perm: Seq<usize>, m: nat)
    requires
        valid_permutation(perm, 32),
        distinct_positions(perm),
        m < perm.len(),
    ensures
        (position_mask_u32(perm, m) >> (position(perm, m as int) as u32)) & 1 == 0,
{
    lemma_mask_clear_u32(perm, m, position(perm, m as int) as u32);
}

/// Scattering without repeated positions sets bits only at positions done,
/// so each step adds a bit that was clear: the sum is a bitwise or.
pub proof fn lemma_scatter_steps_u32(x: u32, perm: Seq<usize>, m: nat)
    requires
        valid_permutation(perm, 32),
        distinct_positions(perm),
        m <= perm.len(),
    ensures
        scatter_u32(x, perm, m) & !position_mask_u32(perm, m) == 0,
        m > 0 ==> scatter_u32(x, perm, m) == scatter_u32(x, perm, (m - 1) as nat) | (((x >> ((m
            - 1) as u32)) & 1) << (position(perm, m - 1) as u32)),
        m > 0 ==> (scatter_u32(x, perm, m) >> (position(perm, m - 1) as u32)) & 1 == (x >> ((m
            - 1) as u32)) & 1,
    decreases m,
{
    if m == 0 {
        assert(0u32 & !0u32 == 0) by (bit_vector);
    } else {
        let k = (m - 1) as u32;
        let o = position(perm, m - 1) as u32;
        let s = scatter_u32(x, perm, (m - 1) as nat);
        let mask = position_mask_u32(perm, (m - 1) as nat);
        lemma_scatter_steps_u32(x, perm, (m - 1) as nat);
        lemma_mask_clear_ahead_u32(perm, (m - 1) as nat);
        bits_scatter_step_u32(s, mask, x, k, o);
        bits_disjoint_sum_u32(s, ((x >> k) & 1) << o);
    }
}

/// After scattering without repeated positions, packed bit `j` is found at
/// its position.
proof fn lemma_scatter_bit_u32(x: u32, perm: Seq<usize>, m: nat, j: nat)
    requires
        valid_permutation(perm, 32),
        distinct_positions(perm),
        j < m <= perm.len(),
    ensures
        (scatter_u32(x, perm, m) >> (position(perm, j as int) as u32)) & 1 == (x >> (j as u32))
            & 1,
    decreases m,
{
    lemma_scatter_steps_u32(x, perm, m);
    if j + 1 < m {
        lemma_scatter_bit_u32(x, perm, (m - 1) as nat, j);
        bits_other_position_u32(
            scatter_u32(x, perm, (m - 1) as nat),
            x,
            (m - 1) as u32,
            position(perm, m - 1) as u32,
            position(perm, j as int) as u32,
        );
    }
}

/// Gathering never carries: the first `m` steps fill bits below `m` only, and
/// bit `j` of the result is the bit at the position of `j`.
pub proof fn lemma_gather_bits_u32(y: u32, perm: Seq<usize>, m: nat)
    requires
        valid_permutation(perm, 32),
        m <= perm.len(),
    ensures
        m < 32 ==> gather_u32(y, perm, m) >> (m as u32) == 0,
        forall|j: nat|
            j < m ==> (#[trigger] (gather_u32(y, perm, m) >> (j as u32))) & 1 == (y >> (position(
                perm,
                j as int,
            ) as u32)) & 1,
    decreases m,
{
    if m == 0 {
        assert(0u32 >> 0u32 == 0) by (bit_vector);
    } else {
        let k = (m - 1) as u32;
        let o = position(perm, m - 1) as u32;
        let g = gather_u32(y, perm, (m - 1) as nat);
        lemma_gather_bits_u32(y, perm, (m - 1) as nat);
        bits_gather_step_u32(g, y, k, o);
        bits_disjoint_sum_u32(g, ((y >> o) & 1) << k);
        assert forall|j: nat| j < m implies (#[trigger] (gather_u32(y, perm, m) >> (j as u32)))
            & 1 == (y >> (position(perm, j as int) as u32)) & 1 by {
            if j + 1 < m {
                bits_other_position_u32(g, y, o, k, j as u32);
            }
        }
    }
}

/// Gathering the first `m` bits of a scattered value gives the low `m` bits
/// of the packed value.
proof fn lemma_gather_scatter_u32(x: u32, perm: Seq<usize>, m: nat)
    requires
        valid_permutation(perm, 32),
        distinct_positions(perm),
        m <= perm.len(),
    ensures
        gather_u32(scatter_u32(x, perm, perm.len()), perm, m) == x & low_mask_u32(m as u32),
    decreases m,
{
    let z = scatter_u32(x, perm, perm.len());
    if m == 0 {
        bits_masked_u32(x, 0, 0);
    } else {
        let k = (m - 1) as u32;
        lemma_gather_scatter_u32(x, perm, (m - 1) as nat);
        lemma_scatter_bit_u32(x, perm, perm.len(), (m - 1) as nat);
        bits_low_mask_step_u32(x, k);
        bits_disjoint_sum_u32(x & low_mask_u32(k), ((x >> k) & 1) << k);
    }
}

/// Scattering the first `m` bits of a gathered value gives the bits of the
/// scattered value at the positions done.
proof fn lemma_scatter_gather_u32(y: u32, perm: Seq<usize>, m: nat)
    requires
        valid_permutation(perm, 32),
        distinct_positions(perm),
        m <= perm.len(),
    ensures
        scatter_u32(gather_u32(y, perm, perm.len()), perm, m) == y & position_mask_u32(perm, m),
    decreases m,
{
    if m == 0 {
        bits_masked_u32(y, 0, 0);
    } else {
        let o = position(perm, m - 1) as u32;
        let mask = position_mask_u32(perm, (m - 1) as nat);
        lemma_scatter_gather_u32(y, perm, (m - 1) as nat);
        lemma_gather_bits_u32(y, perm, perm.len());
        lemma_mask_clear_ahead_u32(perm, (m - 1) as nat);
        bits_position_mask_step_u32(y, mask, o);
        bits_disjoint_sum_u32(y & mask, ((y >> o) & 1) << o);
    }
}

impl Permutable for u32 {
    open spec fn width() -> nat {
        32
    }

    open spec fn permute_spec(self, perm: Seq<usize>) -> u32 {
        gather_u32(self, perm, perm.len())
    }

    open spec fn inv_permute_spec(self, perm: Seq<usize>) -> u32 {
        scatter_u32(self, perm, perm.len())
    }

    open spec fn bit(self, k: nat) -> bool {
        (self >> (k as u32)) & 1 == 1
    }

    open spec fn fits(self, n: nat) -> bool {
        self >> (n as u32) == 0
    }

    open spec fn within(self, perm: Seq<usize>) -> bool {
        self & !position_mask_u32(perm, perm.len()) == 0
    }

    fn permute(self, perm: &[usize]) -> (r: u32) {
        let n = perm.len();
        let mut acc: u32 = 0;
        let mut k: usize = 0;
        while k < n
            invariant
                n == perm.len(),
                valid_permutation(perm@, 32),
                k <= n,
                acc == gather_u32(self, perm@, k as nat),
            decreases n - k,
        {
            let offset = perm[n - 1 - k];
            acc = acc.wrapping_add(((self >> (offset as u32)) & 1) << (k as u32));
            k += 1;
        }
        acc
    }

    fn inv_permute(self, perm: &[usize]) -> (r: u32) {
        let n = perm.len();
        let mut acc: u32 = 0;
        let mut k: usize = 0;
        while k < n
            invariant
                n == perm.len(),
                valid_permutation(perm@, 32),
                k <= n,
                acc == scatter_u32(self, perm@, k as nat),
            decreases n - k,
        {
            let offset = perm[n - 1 - k];
            acc = acc.wrapping_add(((self >> (k as u32)) & 1) << (offset as u32));
            k += 1;
        }
        acc
    }

    proof fn lemma_permute_bits(self, perm: Seq<usize>) {
        let r = self.permute_spec(perm);
        lemma_gather_bits_u32(self, perm, perm.len());
        assert forall|k: nat| k < 32 implies #[trigger] r.bit(k) == (k < perm.len() && self.bit(
            position(perm, k as int) as nat,
        )) by {
            if k >= perm.len() {
                bits_clear_u32(r, perm.len() as u32, 0, k as u32);
            }
        }
    }

    proof fn lemma_inv_permute_bits(self, perm: Seq<usize>) {
        let r = self.inv_permute_spec(perm);
        assert forall|k: nat| k < perm.len() implies r.bit(position(perm, k as int) as nat)
            == #[trigger] self.bit(k) by {
            lemma_scatter_bit_u32(self, perm, perm.len(), k);
        }
        assert forall|j: nat| j < 32 && !perm.contains(j as usize) implies !(#[trigger] r.bit(
            j,
        )) by {
            lemma_scatter_steps_u32(self, perm, perm.len());
            lemma_mask_clear_u32(perm, perm.len(), j as u32);
            bits_clear_u32(r, 0, position_mask_u32(perm, perm.len()), j as u32);
        }
    }

    proof fn lemma_permute_inv_permute(self, perm: Seq<usize>) {
        lemma_gather_scatter_u32(self, perm, perm.len());
        bits_masked_u32(self, perm.len() as u32, 0);
    }

    proof fn lemma_inv_permute_permute(self, perm: Seq<usize>) {
        lemma_scatter_gather_u32(self, perm, perm.len());
        bits_masked_u32(self, 0, position_mask_u32(perm, perm.len()));
    }
}

} // verus!
