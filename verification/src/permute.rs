//! Reordering the bits of a fixed-width unsigned integer along an explicit
//! list of bit positions.
//!
//! A list names, most significant packed bit first, the position that each bit
//! of a densely packed value has in its scattered form. `inv_permute` scatters
//! a packed value, `permute` gathers it back.

use vstd::prelude::*;

pub mod u16_bits;
pub mod u32_bits;
pub mod widths;

verus! {

/// A list is usable for a `width`-bit integer when it has at most `width`
/// entries and every entry names a bit of the integer.
pub open spec fn valid_permutation(perm: Seq<usize>, width: nat) -> bool {
    &&& perm.len() <= width
    &&& forall|i: int| 0 <= i < perm.len() ==> #[trigger] perm[i] < width
}

/// No position is named twice.
pub open spec fn distinct_positions(perm: Seq<usize>) -> bool {
    forall|i: int, j: int| 0 <= i < j < perm.len() ==> perm[i] != perm[j]
}

/// The position that belongs to packed bit `k`: the list is read from its end.
pub open spec fn position(perm: Seq<usize>, k: int) -> usize {
    perm[perm.len() - 1 - k]
}

/// Integers whose bits can be scattered and gathered along a list of positions.
pub trait Permutable: Sized {
    /// Number of bits of the integer.
    spec fn width() -> nat;

    /// The value whose bit `k`, for each `k` below the length of `perm`, is
    /// bit `position(perm, k)` of `self`, and whose other bits are zero.
    spec fn permute_spec(self, perm: Seq<usize>) -> Self;

    /// The sum, modulo two to the `width()`, over each `k` below the length of
    /// `perm`, of bit `k` of `self` moved to `position(perm, k)`.
    spec fn inv_permute_spec(self, perm: Seq<usize>) -> Self;

    /// Whether bit `k` of `self` is set.
    spec fn bit(self, k: nat) -> bool;

    /// All bits of `self` at or above `n` are zero.
    spec fn fits(self, n: nat) -> bool;

    /// Every bit that is set in `self` stands at a position that `perm` names.
    spec fn within(self, perm: Seq<usize>) -> bool;

    /// Gathers the bits of `self` that `perm` names into a packed value.
    fn permute(self, perm: &[usize]) -> (r: Self)
        requires
            valid_permutation(perm@, Self::width()),
        ensures
            r == self.permute_spec(perm@),
    ;

    /// Scatters the low bits of `self` to the positions that `perm` names.
    fn inv_permute(self, perm: &[usize]) -> (r: Self)
        requires
            valid_permutation(perm@, Self::width()),
        ensures
            r == self.inv_permute_spec(perm@),
    ;

    /// Gathering puts the bit at the position of `k` at `k`, for each `k`
    /// below the length of the list, and leaves the bits above clear.
    proof fn lemma_permute_bits(self, perm: Seq<usize>)
        requires
            valid_permutation(perm, Self::width()),
        ensures
            forall|k: nat|
                k < Self::width() ==> #[trigger] self.permute_spec(perm).bit(k) == (k < perm.len()
                    && self.bit(position(perm, k as int) as nat)),
    ;

    /// Scattering along a list that names no position twice puts bit `k` at
    /// the position of `k`, for each `k` below the length of the list, and
    /// leaves the positions that the list does not name clear.
    proof fn lemma_inv_permute_bits(self, perm: Seq<usize>)
        requires
            valid_permutation(perm, Self::width()),
            distinct_positions(perm),
        ensures
            forall|k: nat|
                k < perm.len() ==> self.inv_permute_spec(perm).bit(position(perm, k as int) as nat)
                    == #[trigger] self.bit(k),
            forall|j: nat|
                j < Self::width() && !perm.contains(j as usize) ==> !(
                #[trigger] self.inv_permute_spec(perm).bit(j)),
    ;

    /// Scattering a packed value and gathering it again gives the value back,
    /// when no position is named twice and the value has no more bits than
    /// the list has entries.
    proof fn lemma_permute_inv_permute(self, perm: Seq<usize>)
        requires
            valid_permutation(perm, Self::width()),
            distinct_positions(perm),
            self.fits(perm.len()),
        ensures
            self.inv_permute_spec(perm).permute_spec(perm) == self,
    ;

    /// Gathering a scattered value and scattering it again gives the value
    /// back, when no position is named twice and the value has bits only at
    /// named positions.
    proof fn lemma_inv_permute_permute(self, perm: Seq<usize>)
        requires
            valid_permutation(perm, Self::width()),
            distinct_positions(perm),
            self.within(perm),
        ensures
            self.permute_spec(perm).inv_permute_spec(perm) == self,
    ;
}

} // verus!
