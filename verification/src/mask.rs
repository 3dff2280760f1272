use vstd::arithmetic::power2::{lemma_pow2_pos, pow2};
use vstd::bits::lemma_u32_shr_is_div;
use vstd::prelude::*;

verus! {

/// Number of positions a compatibility mask can speak of.
pub const MASK_WIDTH: usize = 32;

/// Whether bit `index` of `bits` is set, counting from the least significant.
pub open spec fn bit_at(bits: u32, index: int) -> bool {
    0 <= index < 32 && (bits as nat / pow2(index as nat)) % 2 == 1
}

/// A set of positions in the device's CRTC list, as the device reports it for
/// an encoder or a plane. It is a set of list positions, never of handles.
#[derive(Clone, Copy, Debug, PartialEq, Eq, Structural)]
pub struct CrtcMask {
    pub bits: u32,
}

impl View for CrtcMask {
    type V = Set<int>;

    /// The positions that the mask holds.
    open spec fn view(&self) -> Set<int> {
        Set::new(|index: int| bit_at(self.bits, index))
    }
}

impl CrtcMask {
    /// The mask that the device's raw word stands for.
    pub fn new(bits: u32) -> (mask: CrtcMask)
        ensures
            mask.bits == bits,
    {
        CrtcMask { bits }
    }

    /// The mask that holds no position.
    pub fn empty() -> (mask: CrtcMask)
        ensures
            mask@ == Set::<int>::empty(),
    {
        let mask = CrtcMask { bits: 0 };
        proof {
            assert forall|index: int| !bit_at(0u32, index) by {
                if 0 <= index < 32 {
                    lemma_pow2_pos(index as nat);
                    assert(0nat / pow2(index as nat) == 0) by (nonlinear_arith)
                        requires
                            pow2(index as nat) > 0,
                    ;
                }
            }
            assert(mask@ =~= Set::<int>::empty());
        }
        mask
    }

    /// The mask that holds `index` and nothing else.
    pub fn single(index: usize) -> (mask: CrtcMask)
        requires
            index < MASK_WIDTH,
        ensures
            mask@ == set![index as int],
    {
        let shift: u32 = index as u32;
        let bits: u32 = 1u32 << shift;
        let mask = CrtcMask { bits };
        proof {
            assert forall|other: int| bit_at(bits, other) <==> other == index as int by {
                if 0 <= other < 32 {
                    let o: u32 = other as u32;
                    lemma_u32_shr_is_div(bits, o);
                    assert(((1u32 << shift) >> o) % 2 == 1 <==> o == shift) by (bit_vector)
                        requires
                            shift < 32,
                            o < 32,
                    ;
                }
            }
            assert(mask@ =~= set![index as int]);
        }
        mask
    }

    /// Whether the mask holds the list position `index`. A position beyond the
    /// mask's width is never held.
    pub fn contains(&self, index: usize) -> (held: bool)
        ensures
            held == self@.contains(index as int),
    {
        if index >= MASK_WIDTH {
            return false;
        }
        let shift: u32 = index as u32;
        let held = (self.bits >> shift) & 1u32 == 1u32;
        proof {
            let bits = self.bits;
            lemma_u32_shr_is_div(bits, shift);
            assert(((bits >> shift) & 1u32 == 1u32) <==> ((bits >> shift) % 2 == 1)) by (bit_vector);
        }
        held
    }
}

} // verus!
