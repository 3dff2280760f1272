use crate::error::KmsError;
use vstd::prelude::*;

verus! {

/// A display timing: the resolution, the vertical refresh rate, and whether
/// the device marks it as the one it prefers.
#[derive(Clone, Copy, Debug, PartialEq, Eq)]
pub struct Mode {
    /// The name as the device gives it, padded with zero bytes.
    pub name: [u8; 32],
    pub width: u16,
    pub height: u16,
    /// Vertical refresh rate in Hz.
    pub vrefresh: u32,
    pub preferred: bool,
}

impl Mode {
    /// Number of pixels of one frame.
    pub open spec fn spec_area(self) -> int {
        self.width as int * self.height as int
    }

    /// Number of pixels of one frame.
    pub fn area(&self) -> (pixels: u32)
        ensures
            pixels as int == self.spec_area(),
    {
        assert(self.width as int * self.height as int <= 0xffff * 0xffff) by (nonlinear_arith)
            requires
                self.width <= 0xffff,
                self.height <= 0xffff,
        ;
        (self.width as u32) * (self.height as u32)
    }

    /// Whether `self` is to be taken in place of `other`: a preferred mode
    /// before one that is not; then the larger frame; then the higher refresh
    /// rate. Two modes that agree in all three do not outrank each other.
    pub open spec fn spec_outranks(self, other: Mode) -> bool {
        if self.preferred != other.preferred {
            self.preferred
        } else if self.spec_area() != other.spec_area() {
            self.spec_area() > other.spec_area()
        } else {
            self.vrefresh > other.vrefresh
        }
    }

    /// Whether `self` is to be taken in place of `other`.
    pub fn outranks(&self, other: &Mode) -> (wins: bool)
        ensures
            wins == self.spec_outranks(*other),
    {
        if self.preferred != other.preferred {
            self.preferred
        } else {
            let mine: u32 = self.area();
            let theirs: u32 = other.area();
            if mine != theirs {
                mine > theirs
            } else {
                self.vrefresh > other.vrefresh
            }
        }
    }
}

/// Position of the mode that wins among the first `count` of `modes`: the
/// earliest one that no other of them outranks. Meant for `1 <= count`.
pub open spec fn best_mode_index(modes: Seq<Mode>, count: int) -> int
    decreases count,
{
    if count <= 1 {
        0
    } else {
        let earlier = best_mode_index(modes, count - 1);
        if modes[count - 1].spec_outranks(modes[earlier]) {
            count - 1
        } else {
            earlier
        }
    }
}

/// Whether `index` is the earliest position in `modes` whose mode none of the
/// others outranks: every earlier mode is outranked by it, and no later one
/// outranks it.
pub open spec fn is_first_best(modes: Seq<Mode>, index: int) -> bool {
    &&& 0 <= index < modes.len()
    &&& forall|other: int|
        0 <= other < index ==> #[trigger] modes[index].spec_outranks(modes[other])
    &&& forall|other: int|
        index < other < modes.len() ==> !(#[trigger] modes[other].spec_outranks(modes[index]))
}

/// Outranking is transitive.
pub proof fn lemma_outranks_transitive(a: Mode, b: Mode, c: Mode)
    requires
        a.spec_outranks(b),
        b.spec_outranks(c),
    ensures
        a.spec_outranks(c),
{
}

/// The winner among the first `count` modes is the earliest of them that none
/// of them outranks.
pub proof fn lemma_best_mode_index_is_first_best(modes: Seq<Mode>, count: int)
    requires
        1 <= count <= modes.len(),
    ensures
        is_first_best(modes.take(count), best_mode_index(modes, count)),
    decreases count,
{
    let prefix = modes.take(count);
    let best = best_mode_index(modes, count);
    if count > 1 {
        lemma_best_mode_index_is_first_best(modes, count - 1);
        let shorter = modes.take(count - 1);
        let earlier = best_mode_index(modes, count - 1);
        assert(shorter[earlier] == modes[earlier]);
        assert forall|other: int| 0 <= other < best implies #[trigger] prefix[best].spec_outranks(
            prefix[other],
        ) by {
            if best == count - 1 {
                if other != earlier {
                    assert(shorter[other] == modes[other]);
                    if other < earlier {
                        assert(shorter[earlier].spec_outranks(shorter[other]));
                        lemma_outranks_transitive(modes[best], modes[earlier], modes[other]);
                    } else {
                        assert(!shorter[other].spec_outranks(shorter[earlier]));
                    }
                }
            } else {
                assert(shorter[other] == modes[other]);
                assert(shorter[earlier].spec_outranks(shorter[other]));
            }
        }
        assert forall|other: int| best < other < count implies !(#[trigger] prefix[other].spec_outranks(
            prefix[best],
        )) by {
            if other < count - 1 {
                assert(shorter[other] == modes[other]);
                assert(!shorter[other].spec_outranks(shorter[earlier]));
            }
        }
    }
}

/// At most one position of a list is its first best.
pub proof fn lemma_first_best_is_unique(modes: Seq<Mode>, first: int, second: int)
    requires
        is_first_best(modes, first),
        is_first_best(modes, second),
    ensures
        first == second,
{
    if first < second {
        assert(modes[second].spec_outranks(modes[first]));
    } else if second < first {
        assert(modes[first].spec_outranks(modes[second]));
    }
}

/// Where exactly one mode of the list is preferred, that mode is chosen,
/// wherever it stands and however small or slow it is.
pub proof fn lemma_single_preferred_mode_wins(modes: Seq<Mode>, preferred: int)
    requires
        0 <= preferred < modes.len(),
        modes[preferred].preferred,
        forall|other: int|
            0 <= other < modes.len() && other != preferred ==> !(#[trigger] modes[other]).preferred,
    ensures
        best_mode_index(modes, modes.len() as int) == preferred,
{
    let best = best_mode_index(modes, modes.len() as int);
    lemma_best_mode_index_is_first_best(modes, modes.len() as int);
    assert(modes.take(modes.len() as int) =~= modes);
    if preferred < best {
        assert(modes[best].spec_outranks(modes[preferred]));
    } else if best < preferred {
        assert(!modes[preferred].spec_outranks(modes[best]));
    }
}

/// Where no mode of the list is preferred, the chosen mode has the largest
/// frame; among those of that size the highest refresh rate; and every mode
/// listed before it is strictly smaller, or as large and strictly slower.
pub proof fn lemma_without_preferred_largest_wins(modes: Seq<Mode>)
    requires
        modes.len() > 0,
        forall|index: int| 0 <= index < modes.len() ==> !(#[trigger] modes[index]).preferred,
    ensures
        ({
            let best = modes[best_mode_index(modes, modes.len() as int)];
            &&& forall|other: int|
                0 <= other < modes.len() ==> {
                    ||| (#[trigger] modes[other]).spec_area() < best.spec_area()
                    ||| (modes[other].spec_area() == best.spec_area() && modes[other].vrefresh
                        <= best.vrefresh)
                }
            &&& forall|other: int|
                0 <= other < best_mode_index(modes, modes.len() as int) ==> {
                    ||| (#[trigger] modes[other]).spec_area() < best.spec_area()
                    ||| (modes[other].spec_area() == best.spec_area() && modes[other].vrefresh
                        < best.vrefresh)
                }
        }),
{
    let index = best_mode_index(modes, modes.len() as int);
    let best = modes[index];
    lemma_best_mode_index_is_first_best(modes, modes.len() as int);
    assert(modes.take(modes.len() as int) =~= modes);
    assert forall|other: int| 0 <= other < modes.len() implies {
        ||| (#[trigger] modes[other]).spec_area() < best.spec_area()
        ||| (modes[other].spec_area() == best.spec_area() && modes[other].vrefresh
            <= best.vrefresh)
    } by {
        if other < index {
            assert(modes[index].spec_outranks(modes[other]));
        } else if index < other {
            assert(!modes[other].spec_outranks(modes[index]));
        }
    }
    assert forall|other: int| 0 <= other < index implies {
        ||| (#[trigger] modes[other]).spec_area() < best.spec_area()
        ||| (modes[other].spec_area() == best.spec_area() && modes[other].vrefresh
            < best.vrefresh)
    } by {
        assert(modes[index].spec_outranks(modes[other]));
    }
}

/// Chooses the mode to drive the output with. A preferred mode beats one that
/// is not preferred; between two modes that are both preferred or both not,
/// the larger frame wins, then the higher refresh rate; of modes that agree in
/// all of this the earliest is kept.
pub fn choose_mode(modes: &[Mode]) -> (chosen: Result<Mode, KmsError>)
    ensures
        modes@.len() == 0 ==> chosen == Err::<Mode, KmsError>(KmsError::NoModesAvailable),
        modes@.len() > 0 ==> chosen == Ok::<Mode, KmsError>(
            modes@[best_mode_index(modes@, modes@.len() as int)],
        ),
        modes@.len() > 0 ==> is_first_best(modes@, best_mode_index(modes@, modes@.len() as int)),
{
    if modes.len() == 0 {
        return Err(KmsError::NoModesAvailable);
    }
    let mut best: usize = 0;
    let mut next: usize = 1;
    while next < modes.len()
        invariant
            1 <= next <= modes.len(),
            best as int == best_mode_index(modes@, next as int),
            0 <= best < next,
        decreases modes.len() - next,
    {
        if modes[next].outranks(&modes[best]) {
            best = next;
        }
        next += 1;
    }
    proof {
        lemma_best_mode_index_is_first_best(modes@, modes@.len() as int);
        assert(modes@.take(modes@.len() as int) =~= modes@);
    }
    Ok(modes[best])
}

} // verus!
