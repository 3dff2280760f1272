use crate::commit::{AtomicRequest, CommitOutcome};
use crate::context::{commit_assignments, KmsContext};
use crate::error::KmsError;
use crate::framebuffer::FrameBufferObject;
use vstd::prelude::*;

verus! {

/// What a swapchain remembers between frames: how many buffers it has, which
/// one is shown next, and whether it has yet to show its first frame.
pub struct ChainState {
    pub count: int,
    pub index: int,
    pub is_first_frame: bool,
}

/// The state after one present. A transaction that the device accepted
/// clears the first-frame flag and moves on to the next buffer, round the
/// ring. A rejected one changes nothing.
pub open spec fn spec_present(state: ChainState, outcome: CommitOutcome) -> ChainState {
    match outcome {
        CommitOutcome::Accepted => ChainState {
            count: state.count,
            index: (state.index + 1) % state.count,
            is_first_frame: false,
        },
        CommitOutcome::Rejected => state,
    }
}

/// The state after a run of presents with these outcomes.
pub open spec fn after_presents(state: ChainState, outcomes: Seq<CommitOutcome>) -> ChainState
    decreases outcomes.len(),
{
    if outcomes.len() == 0 {
        state
    } else {
        spec_present(after_presents(state, outcomes.drop_last()), outcomes.last())
    }
}

/// How many of `outcomes` are accepted.
pub open spec fn accepted_count(outcomes: Seq<CommitOutcome>) -> int
    decreases outcomes.len(),
{
    if outcomes.len() == 0 {
        0
    } else if outcomes.last() == CommitOutcome::Accepted {
        accepted_count(outcomes.drop_last()) + 1
    } else {
        accepted_count(outcomes.drop_last())
    }
}

/// A chain still has its first frame ahead of it exactly if it began so and
/// none of its presents was accepted: the flag is set for the first accepted
/// present and for no later one. The buffer shown next has moved on once for
/// each accepted present.
pub proof fn lemma_first_frame_only_once(state: ChainState, outcomes: Seq<CommitOutcome>)
    requires
        0 <= state.index < state.count,
    ensures
        after_presents(state, outcomes).is_first_frame == (state.is_first_frame && forall|
            at: int,
        |
            0 <= at < outcomes.len() ==> #[trigger] outcomes[at] != CommitOutcome::Accepted),
        after_presents(state, outcomes).count == state.count,
        after_presents(state, outcomes).index == (state.index + accepted_count(outcomes))
            % state.count,
        accepted_count(outcomes) >= 0,
    decreases outcomes.len(),
{
    if outcomes.len() == 0 {
        assert(state.index % state.count == state.index) by (nonlinear_arith)
            requires
                0 <= state.index < state.count,
        ;
    } else {
        let earlier = outcomes.drop_last();
        lemma_first_frame_only_once(state, earlier);
        assert forall|at: int| 0 <= at < earlier.len() implies earlier[at] == outcomes[at] by {}
        if outcomes.last() == CommitOutcome::Accepted {
            assert(outcomes[outcomes.len() - 1] == CommitOutcome::Accepted);
            let moved = state.index + accepted_count(earlier);
            assert(((moved % state.count) + 1) % state.count == (moved + 1) % state.count)
                by (nonlinear_arith)
                requires
                    state.count > 0,
            ;
        } else {
            if forall|at: int|
                0 <= at < earlier.len() ==> #[trigger] earlier[at] != CommitOutcome::Accepted {
                assert forall|at: int| 0 <= at < outcomes.len() implies #[trigger] outcomes[at]
                    != CommitOutcome::Accepted by {
                    if at < earlier.len() {
                        assert(earlier[at] == outcomes[at]);
                    }
                }
            } else {
                let at = choose|at: int|
                    0 <= at < earlier.len() && #[trigger] earlier[at] == CommitOutcome::Accepted;
                assert(outcomes[at] == CommitOutcome::Accepted);
            }
        }
    }
}

/// What is left of a swapchain that was given up: its buffers, to be
/// released, and whether it had yet to show its first frame.
#[derive(Debug, PartialEq, Eq)]
pub struct RetiredSwapchain {
    pub is_first_frame: bool,
    pub framebuffers: Vec<FrameBufferObject>,
}

/// A ring of scanout buffers that are shown in turn.
#[derive(Debug, PartialEq, Eq)]
pub struct KmsSwapchain {
    framebuffers: Vec<FrameBufferObject>,
    current_index: usize,
    is_first_frame: bool,
}

impl KmsSwapchain {
    /// The buffers of the ring, in their order.
    pub closed spec fn spec_framebuffers(&self) -> Seq<FrameBufferObject> {
        self.framebuffers@
    }

    /// Position of the buffer that is shown next.
    pub closed spec fn spec_current_index(&self) -> int {
        self.current_index as int
    }

    /// Whether the chain has yet to show its first frame.
    pub closed spec fn spec_is_first_frame(&self) -> bool {
        self.is_first_frame
    }

    /// What the chain remembers between frames.
    pub open spec fn state(&self) -> ChainState {
        ChainState {
            count: self.spec_framebuffers().len() as int,
            index: self.spec_current_index(),
            is_first_frame: self.spec_is_first_frame(),
        }
    }

    /// The ring is not empty, and the buffer shown next is one of it.
    pub open spec fn wf(&self) -> bool {
        0 <= self.spec_current_index() < self.spec_framebuffers().len()
    }

    /// Number of buffers in the ring.
    pub fn len(&self) -> (count: usize)
        ensures
            count == self.spec_framebuffers().len(),
    {
        self.framebuffers.len()
    }

    /// Whether the chain has yet to show its first frame.
    pub fn is_first_frame(&self) -> (first: bool)
        ensures
            first == self.spec_is_first_frame(),
    {
        self.is_first_frame
    }

    /// Moves on to the next buffer, round the ring.
    pub fn swap(&mut self)
        requires
            old(self).wf(),
        ensures
            final(self).wf(),
            final(self).spec_framebuffers() == old(self).spec_framebuffers(),
            final(self).spec_is_first_frame() == old(self).spec_is_first_frame(),
            final(self).spec_current_index() == (old(self).spec_current_index() + 1) % (old(
                self,
            ).spec_framebuffers().len() as int),
    {
        let count = self.framebuffers.len();
        if self.current_index + 1 == count {
            assert((self.current_index + 1) % (count as int) == 0) by (nonlinear_arith)
                requires
                    self.current_index + 1 == count,
                    count > 0,
            ;
            self.current_index = 0;
        } else {
            assert((self.current_index + 1) % (count as int) == self.current_index + 1)
                by (nonlinear_arith)
                requires
                    0 <= self.current_index + 1 < count,
            ;
            self.current_index = self.current_index + 1;
        }
    }

    /// The buffer that is shown next, with its position in the ring.
    pub fn current_framebuffer(&self) -> (current: (usize, &FrameBufferObject))
        requires
            self.wf(),
        ensures
            current.0 == self.spec_current_index(),
            *current.1 == self.spec_framebuffers()[self.spec_current_index()],
    {
        (self.current_index, &self.framebuffers[self.current_index])
    }

    /// Builds the transaction for the next frame: it shows the current
    /// buffer, and allows a modeset exactly if this is the chain's first
    /// frame.
    pub fn next_commit(&self, context: &KmsContext) -> (request: AtomicRequest)
        requires
            self.wf(),
        ensures
            request.allow_modeset == self.spec_is_first_frame(),
            request.assignments@ == commit_assignments(
                context.spec_selection(),
                context.spec_property_cache(),
                self.spec_is_first_frame(),
                self.spec_framebuffers()[self.spec_current_index()].spec_framebuffer(),
            ),
    {
        context.atomic_commit(self.is_first_frame, &self.framebuffers[self.current_index])
    }

    /// Takes note of what the device answered to the transaction for the
    /// current frame. After an accepted one the chain has shown its first
    /// frame and moves on to the next buffer. A rejected one leaves the chain
    /// as it was and is reported.
    pub fn present(&mut self, outcome: CommitOutcome) -> (presented: Result<(), KmsError>)
        requires
            old(self).wf(),
        ensures
            final(self).wf(),
            final(self).spec_framebuffers() == old(self).spec_framebuffers(),
            final(self).state() == spec_present(old(self).state(), outcome),
            presented == match outcome {
                CommitOutcome::Accepted => Ok::<(), KmsError>(()),
                CommitOutcome::Rejected => Err::<(), KmsError>(KmsError::CommitRejected),
            },
    {
        match outcome {
            CommitOutcome::Rejected => Err(KmsError::CommitRejected),
            CommitOutcome::Accepted => {
                self.is_first_frame = false;
                self.swap();
                Ok(())
            },
        }
    }

    /// Gives the chain up: hands back its buffers, to be released before a
    /// chain that replaces it gets any, and whether it had yet to show its
    /// first frame.
    pub fn retire(self) -> (retired: RetiredSwapchain)
        ensures
            retired.is_first_frame == self.spec_is_first_frame(),
            retired.framebuffers@ == self.spec_framebuffers(),
    {
        RetiredSwapchain { is_first_frame: self.is_first_frame, framebuffers: self.framebuffers }
    }
}

impl KmsContext {
    /// Makes a swapchain of `framebuffers`. A fresh chain has its first frame
    /// ahead of it. One that replaces `old_swapchain` takes over whether that
    /// chain had: a chain that never showed a frame still leaves the modeset
    /// to its successor. The buffers of the old chain must all have been
    /// taken out of it and released before those of the new one were made.
    pub fn create_swapchain(
        &self,
        framebuffers: Vec<FrameBufferObject>,
        old_swapchain: Option<RetiredSwapchain>,
    ) -> (swapchain: KmsSwapchain)
        requires
            framebuffers@.len() > 0,
            old_swapchain matches Some(old) ==> old.framebuffers@.len() == 0,
        ensures
            swapchain.wf(),
            swapchain.spec_framebuffers() == framebuffers@,
            swapchain.spec_current_index() == 0,
            swapchain.spec_is_first_frame() == match old_swapchain {
                None => true,
                Some(old) => old.is_first_frame,
            },
    {
        let is_first_frame = match &old_swapchain {
            None => true,
            Some(old) => old.is_first_frame,
        };
        KmsSwapchain { framebuffers, current_index: 0, is_first_frame }
    }
}

} // verus!
