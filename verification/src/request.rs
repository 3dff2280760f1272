use crate::commit::{AtomicRequest, CommitValue, ObjectHandle, PropertyAssignment};
use crate::context::{commit_assignments, lemma_modeset_entries_only_when_allowed, DrmContext};
use crate::handles::FramebufferHandle;
use crate::props::CommitPropertyCache;
use drm::control::atomic::AtomicModeReq;
use vstd::prelude::*;

verus! {

/// `AtomicModeReq` of the crate drm, the form in which the device takes a
/// transaction. Nothing inside it is visible here: what it holds is spoken
/// of through `request_entries`.
#[verifier::external_type_specification]
#[verifier::external_body]
pub struct ExAtomicModeReq(drm::control::atomic::AtomicModeReq);

/// What a request of the device library holds: for each pair of an object
/// and one of its properties, by their raw identifiers, the raw value that
/// the property is set to.
pub uninterp spec fn request_entries(request: AtomicModeReq) -> Map<(u32, u32), u64>;

/// What a request holds before anything is set.
pub open spec fn no_entries() -> Map<(u32, u32), u64> {
    Map::empty()
}

/// `AtomicModeReq::new` of the crate drm. The request that it makes holds no
/// entry.
#[verifier::external_body]
fn empty_request() -> (request: AtomicModeReq)
    ensures
        request_entries(request) == no_entries(),
{
    AtomicModeReq::new()
}

/// `AtomicModeReq::add_raw_property` of the crate drm. It sets the property
/// of the object to the value: a pair that the request did not hold is added,
/// the value of one that it held is replaced, and no other entry changes.
/// Neither identifier may be zero.
#[verifier::external_body]
fn set_entry(request: &mut AtomicModeReq, object: u32, property: u32, value: u64)
    requires
        object != 0,
        property != 0,
    ensures
        request_entries(*final(request)) == request_entries(*old(request)).insert(
            (object, property),
            value,
        ),
{
    let object = core::num::NonZeroU32::new(object).unwrap();
    let property = core::num::NonZeroU32::new(property).unwrap();
    request.add_raw_property(object, property.into(), value);
}

impl ObjectHandle {
    /// The raw identifier of the object.
    pub open spec fn spec_raw(self) -> u32 {
        match self {
            ObjectHandle::Connector(handle) => handle.0,
            ObjectHandle::Crtc(handle) => handle.0,
            ObjectHandle::Plane(handle) => handle.0,
        }
    }

    /// The raw identifier of the object.
    pub fn raw(&self) -> (raw: u32)
        ensures
            raw == self.spec_raw(),
    {
        match self {
            ObjectHandle::Connector(handle) => handle.0,
            ObjectHandle::Crtc(handle) => handle.0,
            ObjectHandle::Plane(handle) => handle.0,
        }
    }
}

impl CommitValue {
    /// The word that the device is given for the value: the identifier of
    /// what is referred to; one for true and zero for false; a number as it
    /// is, a signed one in two's complement.
    pub open spec fn spec_raw(self) -> u64 {
        match self {
            CommitValue::Crtc(handle) => handle.0 as u64,
            CommitValue::Framebuffer(handle) => handle.0 as u64,
            CommitValue::Blob(blob) => blob.0,
            CommitValue::Boolean(value) => if value {
                1
            } else {
                0
            },
            CommitValue::UnsignedRange(value) => value,
            CommitValue::SignedRange(value) => value as u64,
        }
    }

    /// The word that the device is given for the value.
    pub fn raw(&self) -> (raw: u64)
        ensures
            raw == self.spec_raw(),
    {
        match self {
            CommitValue::Crtc(handle) => handle.0 as u64,
            CommitValue::Framebuffer(handle) => handle.0 as u64,
            CommitValue::Blob(blob) => blob.0,
            CommitValue::Boolean(value) => if *value {
                1
            } else {
                0
            },
            CommitValue::UnsignedRange(value) => *value,
            CommitValue::SignedRange(value) => #[verifier::truncate]
            (*value as u64),
        }
    }
}

/// Whether the device can be told of every entry: no object and no property
/// has the identifier zero, which names nothing.
pub open spec fn addressable(assignments: Seq<PropertyAssignment>) -> bool {
    forall|at: int|
        0 <= at < assignments.len() ==> (#[trigger] assignments[at]).object.spec_raw() != 0
            && assignments[at].property.0 != 0
}

/// What the device is told when the entries are set one after the other: of
/// two entries for the same property of the same object the later one stays.
pub open spec fn entries_of(assignments: Seq<PropertyAssignment>) -> Map<(u32, u32), u64>
    decreases assignments.len(),
{
    if assignments.len() == 0 {
        Map::empty()
    } else {
        let last = assignments.last();
        entries_of(assignments.drop_last()).insert(
            (last.object.spec_raw(), last.property.0),
            last.value.spec_raw(),
        )
    }
}

/// The object and the property that an entry is about, by their raw
/// identifiers.
pub open spec fn target_of(entry: PropertyAssignment) -> (u32, u32) {
    (entry.object.spec_raw(), entry.property.0)
}

/// The device is told of exactly the properties that some entry sets, and
/// for each of them the value of the last entry that sets it.
pub proof fn lemma_last_entry_stays(assignments: Seq<PropertyAssignment>, at: int)
    requires
        0 <= at < assignments.len(),
        forall|later: int|
            at < later < assignments.len() ==> target_of(#[trigger] assignments[later])
                != target_of(assignments[at]),
    ensures
        entries_of(assignments).contains_key(target_of(assignments[at])),
        entries_of(assignments)[target_of(assignments[at])] == assignments[at].value.spec_raw(),
    decreases assignments.len(),
{
    if at < assignments.len() - 1 {
        let shorter = assignments.drop_last();
        assert(shorter[at] == assignments[at]);
        assert forall|later: int| at < later < shorter.len() implies target_of(
            #[trigger] shorter[later],
        ) != target_of(shorter[at]) by {
            assert(shorter[later] == assignments[later]);
        }
        lemma_last_entry_stays(shorter, at);
        assert(target_of(assignments[assignments.len() - 1]) != target_of(assignments[at]));
    }
}

/// The device is told of nothing that no entry sets.
pub proof fn lemma_entries_come_from_assignments(
    assignments: Seq<PropertyAssignment>,
    target: (u32, u32),
)
    requires
        entries_of(assignments).contains_key(target),
    ensures
        exists|at: int|
            0 <= at < assignments.len() && target_of(#[trigger] assignments[at]) == target,
    decreases assignments.len(),
{
    if assignments.len() > 0 {
        let last = assignments.len() - 1;
        if target_of(assignments[last]) != target {
            let shorter = assignments.drop_last();
            lemma_entries_come_from_assignments(shorter, target);
            let at = choose|at: int|
                0 <= at < shorter.len() && target_of(#[trigger] shorter[at]) == target;
            assert(assignments[at] == shorter[at]);
        }
    }
}

/// Of a transaction that allows no modeset the device is told nothing but
/// properties of the plane.
pub proof fn lemma_flip_tells_of_the_plane_only(
    selection: DrmContext,
    cache: CommitPropertyCache,
    framebuffer: FramebufferHandle,
    target: (u32, u32),
)
    requires
        entries_of(commit_assignments(selection, cache, false, framebuffer)).contains_key(target),
    ensures
        target.0 == selection.plane.0,
{
    let flip = commit_assignments(selection, cache, false, framebuffer);
    lemma_entries_come_from_assignments(flip, target);
    let at = choose|at: int| 0 <= at < flip.len() && target_of(#[trigger] flip[at]) == target;
    lemma_modeset_entries_only_when_allowed(selection, cache, framebuffer);
    assert(flip.contains(flip[at]));
}

impl AtomicRequest {
    /// Puts the transaction into the form in which the device takes it.
    /// There is none if an entry names an object or a property by the
    /// identifier zero.
    pub fn device_request(&self) -> (request: Option<AtomicModeReq>)
        ensures
            request is Some <==> addressable(self.assignments@),
            request matches Some(built) ==> request_entries(built) == entries_of(
                self.assignments@,
            ),
    {
        let mut built = empty_request();
        let mut at: usize = 0;
        while at < self.assignments.len()
            invariant
                at <= self.assignments.len(),
                addressable(self.assignments@.take(at as int)),
                request_entries(built) == entries_of(self.assignments@.take(at as int)),
            decreases self.assignments.len() - at,
        {
            let entry = self.assignments[at];
            let object = entry.object.raw();
            let property = entry.property.0;
            if object == 0 || property == 0 {
                return None;
            }
            set_entry(&mut built, object, property, entry.value.raw());
            proof {
                let longer = self.assignments@.take(at + 1);
                assert(longer.drop_last() =~= self.assignments@.take(at as int));
                assert(longer.last() == entry);
                assert forall|earlier: int| 0 <= earlier < longer.len() implies (
                #[trigger] longer[earlier]).object.spec_raw() != 0 && longer[earlier].property.0
                    != 0 by {
                    if earlier < at {
                        assert(self.assignments@.take(at as int)[earlier] == longer[earlier]);
                    }
                }
            }
            at += 1;
        }
        assert(self.assignments@.take(at as int) =~= self.assignments@);
        Some(built)
    }
}

} // verus!
