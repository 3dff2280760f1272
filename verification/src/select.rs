use crate::catalog::{Connector, ConnectorState, Encoder, IndexedCrtc, Plane};
use crate::error::KmsError;
use crate::handles::{CrtcHandle, EncoderHandle};
use crate::mask::CrtcMask;
use crate::search::{first_where, lemma_first_where, lemma_first_where_is};
use vstd::prelude::*;

verus! {

/// The positions of `connectors` that hold a connected connector.
pub open spec fn connected_at(connectors: Seq<Connector>) -> spec_fn(int) -> bool {
    |index: int| connectors[index].state == ConnectorState::Connected
}

/// Position of the first connected connector, or the length of the list.
pub open spec fn first_connected(connectors: Seq<Connector>) -> int {
    first_where(connected_at(connectors), 0, connectors.len() as int)
}

/// Chooses the output to drive: the first connector in the list that is
/// connected. More than one connected connector is no error.
pub fn choose_connector(connectors: &[Connector]) -> (chosen: Result<&Connector, KmsError>)
    ensures
        first_connected(connectors@) < connectors@.len() ==> chosen == Ok::<&Connector, KmsError>(
            &connectors@[first_connected(connectors@)],
        ),
        first_connected(connectors@) >= connectors@.len() ==> chosen == Err::<
            &Connector,
            KmsError,
        >(KmsError::NoConnectedOutput),
        chosen is Err <==> forall|index: int|
            0 <= index < connectors@.len() ==> (#[trigger] connectors@[index]).state
                != ConnectorState::Connected,
{
    let ghost wanted = connected_at(connectors@);
    proof {
        lemma_first_where(wanted, 0, connectors@.len() as int);
    }
    let mut index: usize = 0;
    while index < connectors.len()
        invariant
            index <= connectors.len(),
            wanted == connected_at(connectors@),
            first_where(wanted, 0, connectors@.len() as int) == first_where(
                wanted,
                index as int,
                connectors@.len() as int,
            ),
        decreases connectors.len() - index,
    {
        if connectors[index].state == ConnectorState::Connected {
            assert(wanted(index as int));
            return Ok(&connectors[index]);
        }
        assert(!wanted(index as int));
        index += 1;
    }
    proof {
        assert forall|at: int| 0 <= at < connectors@.len() implies (#[trigger] connectors@[at]).state
            != ConnectorState::Connected by {
            assert(!wanted(at));
        }
    }
    Err(KmsError::NoConnectedOutput)
}

/// The positions of `crtcs` that hold `handle`.
pub open spec fn handle_at(crtcs: Seq<CrtcHandle>, handle: CrtcHandle) -> spec_fn(int) -> bool {
    |index: int| crtcs[index] == handle
}

/// Position of the first entry of `crtcs` that is `handle`, or the length of
/// the list.
pub open spec fn first_position_of(crtcs: Seq<CrtcHandle>, handle: CrtcHandle) -> int {
    first_where(handle_at(crtcs, handle), 0, crtcs.len() as int)
}

/// The positions that `mask` holds.
pub open spec fn masked_at(mask: CrtcMask) -> spec_fn(int) -> bool {
    |index: int| mask@.contains(index)
}

/// The first of the positions `0..count` that `mask` holds, or `count`.
pub open spec fn first_masked(mask: CrtcMask, count: int) -> int {
    first_where(masked_at(mask), 0, count)
}

/// The CRTC that an encoder leads to. The CRTC that feeds it at present is
/// taken where there is one, and it must be in the device's list. Otherwise
/// the first position of the list that the encoder's mask holds is taken.
pub open spec fn spec_choose_crtc_for_encoder(encoder: Encoder, crtcs: Seq<CrtcHandle>) -> Result<
    Option<IndexedCrtc>,
    KmsError,
> {
    match encoder.crtc {
        Some(handle) => {
            let at = first_position_of(crtcs, handle);
            if at < crtcs.len() {
                Ok(Some(IndexedCrtc { handle, index: at as usize }))
            } else {
                Err(KmsError::ResourceQueryFailure)
            }
        },
        None => {
            let at = first_masked(encoder.possible_crtcs, crtcs.len() as int);
            if at < crtcs.len() {
                Ok(Some(IndexedCrtc { handle: crtcs[at], index: at as usize }))
            } else {
                Ok(None)
            }
        },
    }
}

/// Finds the CRTC for one encoder, with its position in the device's CRTC
/// list. `Ok(None)` says that the encoder leads to none; the error, that the
/// CRTC bound to it is not among the device's.
pub fn choose_crtc_for_encoder(encoder: &Encoder, crtcs: &[CrtcHandle]) -> (chosen: Result<
    Option<IndexedCrtc>,
    KmsError,
>)
    ensures
        chosen == spec_choose_crtc_for_encoder(*encoder, crtcs@),
        chosen matches Ok(Some(crtc)) ==> crtc.index < crtcs@.len() && crtcs@[crtc.index as int]
            == crtc.handle,
{
    let count = crtcs.len();
    match encoder.crtc {
        Some(handle) => {
            let ghost wanted = handle_at(crtcs@, handle);
            proof {
                lemma_first_where(wanted, 0, count as int);
            }
            let mut index: usize = 0;
            while index < count
                invariant
                    index <= count,
                    count == crtcs@.len(),
                    encoder.crtc == Some(handle),
                    wanted == handle_at(crtcs@, handle),
                    first_where(wanted, 0, count as int) == first_where(
                        wanted,
                        index as int,
                        count as int,
                    ),
                decreases count - index,
            {
                if crtcs[index] == handle {
                    assert(wanted(index as int));
                    return Ok(Some(IndexedCrtc { handle, index }));
                }
                assert(!wanted(index as int));
                index += 1;
            }
            Err(KmsError::ResourceQueryFailure)
        },
        None => {
            let mask = encoder.possible_crtcs;
            let ghost wanted = masked_at(mask);
            proof {
                lemma_first_where(wanted, 0, count as int);
            }
            let mut index: usize = 0;
            while index < count
                invariant
                    index <= count,
                    count == crtcs@.len(),
                    encoder.crtc is None,
                    mask == encoder.possible_crtcs,
                    wanted == masked_at(mask),
                    first_where(wanted, 0, count as int) == first_where(
                        wanted,
                        index as int,
                        count as int,
                    ),
                decreases count - index,
            {
                if mask.contains(index) {
                    assert(wanted(index as int));
                    return Ok(Some(IndexedCrtc { handle: crtcs[index], index }));
                }
                assert(!wanted(index as int));
                index += 1;
            }
            Ok(None)
        },
    }
}

/// The positions of `known` that hold the encoder `handle`.
pub open spec fn encoder_at(known: Seq<Encoder>, handle: EncoderHandle) -> spec_fn(int) -> bool {
    |index: int| known[index].handle == handle
}

/// Position of the first entry of `known` whose handle is `handle`, or the
/// length of the list.
pub open spec fn first_encoder_with(known: Seq<Encoder>, handle: EncoderHandle) -> int {
    first_where(encoder_at(known, handle), 0, known.len() as int)
}

/// The device's description of the encoder `handle`: the first entry of
/// `known` with that handle.
pub fn find_encoder(known: &[Encoder], handle: EncoderHandle) -> (found: Option<Encoder>)
    ensures
        first_encoder_with(known@, handle) < known@.len() ==> found == Some(
            known@[first_encoder_with(known@, handle)],
        ),
        first_encoder_with(known@, handle) >= known@.len() ==> found is None,
        found is None <==> forall|index: int|
            0 <= index < known@.len() ==> (#[trigger] known@[index]).handle != handle,
{
    let ghost wanted = encoder_at(known@, handle);
    proof {
        lemma_first_where(wanted, 0, known@.len() as int);
    }
    let mut index: usize = 0;
    while index < known.len()
        invariant
            index <= known.len(),
            wanted == encoder_at(known@, handle),
            first_where(wanted, 0, known@.len() as int) == first_where(
                wanted,
                index as int,
                known@.len() as int,
            ),
        decreases known.len() - index,
    {
        if known[index].handle == handle {
            assert(wanted(index as int));
            return Some(known[index]);
        }
        assert(!wanted(index as int));
        index += 1;
    }
    proof {
        assert forall|at: int| 0 <= at < known@.len() implies (#[trigger] known@[at]).handle
            != handle by {
            assert(!wanted(at));
        }
    }
    None
}

/// What one slot of a connector's encoder list contributes: nothing where the
/// slot is empty; an error where the device does not know the encoder;
/// otherwise the CRTC that the encoder leads to, if any.
pub open spec fn spec_crtc_for_slot(
    slot: Option<EncoderHandle>,
    known: Seq<Encoder>,
    crtcs: Seq<CrtcHandle>,
) -> Result<Option<IndexedCrtc>, KmsError> {
    match slot {
        None => Ok(None),
        Some(handle) => {
            let at = first_encoder_with(known, handle);
            if at < known.len() {
                spec_choose_crtc_for_encoder(known[at], crtcs)
            } else {
                Err(KmsError::ResourceQueryFailure)
            }
        },
    }
}

/// The slots in the order in which they are visited: the encoder that drives
/// the connector at present, then those that can drive it.
pub open spec fn encoder_slots(
    current_encoder: Option<EncoderHandle>,
    encoders: Seq<Option<EncoderHandle>>,
) -> Seq<Option<EncoderHandle>> {
    seq![current_encoder] + encoders
}

/// Whether the device knows the encoder of every slot from position `from`
/// on.
pub open spec fn slots_known_from(
    slots: Seq<Option<EncoderHandle>>,
    known: Seq<Encoder>,
    from: int,
) -> bool {
    forall|at: int|
        from <= at < slots.len() ==> ((#[trigger] slots[at]) matches Some(handle)
            ==> first_encoder_with(known, handle) < known.len())
}

/// The outcome of visiting the slots from position `from` on: the CRTC of the
/// first slot that yields one. A slot that fails ends the search. The slots
/// after the one that decides are visited too: none of them changes the
/// choice, but an encoder among them that the device does not know is an
/// error all the same.
pub open spec fn crtc_from_slots(
    slots: Seq<Option<EncoderHandle>>,
    known: Seq<Encoder>,
    crtcs: Seq<CrtcHandle>,
    from: int,
) -> Result<IndexedCrtc, KmsError>
    decreases slots.len() - from,
{
    if from < 0 || from >= slots.len() {
        Err(KmsError::NoCompatibleCrtc)
    } else {
        match spec_crtc_for_slot(slots[from], known, crtcs) {
            Err(error) => Err(error),
            Ok(Some(crtc)) => if slots_known_from(slots, known, from + 1) {
                Ok(crtc)
            } else {
                Err(KmsError::ResourceQueryFailure)
            },
            Ok(None) => crtc_from_slots(slots, known, crtcs, from + 1),
        }
    }
}

/// The slot that decides is the first one that does not come up empty: where
/// every slot before `at` yields nothing, the search from `from` ends with
/// what the slot at `at` gives, an error or a CRTC, and the CRTC is kept
/// whatever the later slots would yield, as long as the device knows their
/// encoders. Where `at` is the end of the list, there is no CRTC at all.
pub proof fn lemma_first_slot_that_answers_decides(
    slots: Seq<Option<EncoderHandle>>,
    known: Seq<Encoder>,
    crtcs: Seq<CrtcHandle>,
    from: int,
    at: int,
)
    requires
        0 <= from <= at <= slots.len(),
        forall|earlier: int|
            from <= earlier < at ==> spec_crtc_for_slot(#[trigger] slots[earlier], known, crtcs)
                == Ok::<Option<IndexedCrtc>, KmsError>(None),
        at < slots.len() ==> spec_crtc_for_slot(slots[at], known, crtcs) != Ok::<
            Option<IndexedCrtc>,
            KmsError,
        >(None),
    ensures
        crtc_from_slots(slots, known, crtcs, from) == if at == slots.len() {
            Err::<IndexedCrtc, KmsError>(KmsError::NoCompatibleCrtc)
        } else {
            match spec_crtc_for_slot(slots[at], known, crtcs) {
                Ok(Some(crtc)) => if slots_known_from(slots, known, at + 1) {
                    Ok::<IndexedCrtc, KmsError>(crtc)
                } else {
                    Err::<IndexedCrtc, KmsError>(KmsError::ResourceQueryFailure)
                },
                Ok(None) => Err::<IndexedCrtc, KmsError>(KmsError::NoCompatibleCrtc),
                Err(error) => Err::<IndexedCrtc, KmsError>(error),
            }
        },
    decreases at - from,
{
    if from < at {
        assert(spec_crtc_for_slot(slots[from], known, crtcs) == Ok::<Option<IndexedCrtc>, KmsError>(
            None,
        ));
        lemma_first_slot_that_answers_decides(slots, known, crtcs, from + 1, at);
    }
}

/// A CRTC that the search comes up with stands in the device's list, at the
/// position that is reported with it.
pub proof fn lemma_chosen_crtc_is_listed(
    slots: Seq<Option<EncoderHandle>>,
    known: Seq<Encoder>,
    crtcs: Seq<CrtcHandle>,
    from: int,
)
    requires
        0 <= from,
        crtcs.len() <= usize::MAX,
    ensures
        crtc_from_slots(slots, known, crtcs, from) matches Ok(crtc) ==> crtc.index < crtcs.len()
            && crtcs[crtc.index as int] == crtc.handle,
    decreases slots.len() - from,
{
    if from < slots.len() {
        match spec_crtc_for_slot(slots[from], known, crtcs) {
            Ok(Some(crtc)) => {
                let wanted = slots[from]->Some_0;
                lemma_first_where(encoder_at(known, wanted), 0, known.len() as int);
                let encoder = known[first_encoder_with(known, wanted)];
                match encoder.crtc {
                    Some(handle) => {
                        lemma_first_where(handle_at(crtcs, handle), 0, crtcs.len() as int);
                    },
                    None => {
                        lemma_first_where(
                            masked_at(encoder.possible_crtcs),
                            0,
                            crtcs.len() as int,
                        );
                    },
                }
            },
            Ok(None) => {
                lemma_chosen_crtc_is_listed(slots, known, crtcs, from + 1);
            },
            Err(_) => {},
        }
    }
}

/// The CRTC for a connector with these encoders.
pub open spec fn spec_choose_crtc(
    current_encoder: Option<EncoderHandle>,
    encoders: Seq<Option<EncoderHandle>>,
    known: Seq<Encoder>,
    crtcs: Seq<CrtcHandle>,
) -> Result<IndexedCrtc, KmsError> {
    crtc_from_slots(encoder_slots(current_encoder, encoders), known, crtcs, 0)
}

/// The CRTC that one slot of the encoder list yields.
fn crtc_for_slot(slot: Option<EncoderHandle>, known: &[Encoder], crtcs: &[CrtcHandle]) -> (chosen:
    Result<Option<IndexedCrtc>, KmsError>)
    ensures
        chosen == spec_crtc_for_slot(slot, known@, crtcs@),
        chosen matches Ok(Some(crtc)) ==> crtc.index < crtcs@.len() && crtcs@[crtc.index as int]
            == crtc.handle,
{
    match slot {
        None => Ok(None),
        Some(handle) => match find_encoder(known, handle) {
            None => Err(KmsError::ResourceQueryFailure),
            Some(encoder) => choose_crtc_for_encoder(&encoder, crtcs),
        },
    }
}

/// Whether the device knows the encoder of the slot; an empty slot asks for
/// none.
fn is_slot_known(slot: Option<EncoderHandle>, known: &[Encoder]) -> (found: bool)
    ensures
        found == (slot matches Some(handle) ==> first_encoder_with(known@, handle) < known@.len()),
{
    match slot {
        None => true,
        Some(handle) => find_encoder(known, handle).is_some(),
    }
}

/// Chooses the CRTC for a connector. The encoder that drives the connector at
/// present is visited first, then those that can drive it, in their order,
/// empty slots passed over. The first encoder that leads to a CRTC decides.
/// The encoders after it are visited as well, but none of them replaces its
/// CRTC.
pub fn choose_crtc(
    current_encoder: Option<EncoderHandle>,
    encoders: &[Option<EncoderHandle>],
    known: &[Encoder],
    crtcs: &[CrtcHandle],
) -> (chosen: Result<IndexedCrtc, KmsError>)
    ensures
        chosen == spec_choose_crtc(current_encoder, encoders@, known@, crtcs@),
        chosen matches Ok(crtc) ==> crtc.index < crtcs@.len() && crtcs@[crtc.index as int]
            == crtc.handle,
{
    let ghost slots = encoder_slots(current_encoder, encoders@);
    let mut chosen: Option<IndexedCrtc> = match crtc_for_slot(current_encoder, known, crtcs) {
        Err(error) => {
            return Err(error);
        },
        Ok(found) => found,
    };
    let ghost mut decided: int = 0;
    let mut index: usize = 0;
    while index < encoders.len()
        invariant
            index <= encoders.len(),
            slots == encoder_slots(current_encoder, encoders@),
            0 <= decided <= index,
            match chosen {
                None => crtc_from_slots(slots, known@, crtcs@, 0) == crtc_from_slots(
                    slots,
                    known@,
                    crtcs@,
                    index + 1,
                ),
                Some(crtc) => {
                    &&& crtc.index < crtcs@.len()
                    &&& crtcs@[crtc.index as int] == crtc.handle
                    &&& crtc_from_slots(slots, known@, crtcs@, 0) == if slots_known_from(
                        slots,
                        known@,
                        decided + 1,
                    ) {
                        Ok::<IndexedCrtc, KmsError>(crtc)
                    } else {
                        Err::<IndexedCrtc, KmsError>(KmsError::ResourceQueryFailure)
                    }
                    &&& forall|at: int|
                        decided < at <= index ==> ((#[trigger] slots[at]) matches Some(handle)
                            ==> first_encoder_with(known@, handle) < known@.len())
                },
            },
        decreases encoders.len() - index,
    {
        assert(slots[index + 1] == encoders@[index as int]);
        match chosen {
            Some(_) => {
                if !is_slot_known(encoders[index], known) {
                    return Err(KmsError::ResourceQueryFailure);
                }
            },
            None => {
                match crtc_for_slot(encoders[index], known, crtcs) {
                    Err(error) => {
                        return Err(error);
                    },
                    Ok(found) => {
                        chosen = found;
                        proof {
                            decided = index + 1;
                        }
                    },
                }
            },
        }
        index += 1;
    }
    match chosen {
        Some(crtc) => Ok(crtc),
        None => Err(KmsError::NoCompatibleCrtc),
    }
}

/// The positions of `planes` whose plane can be bound to the CRTC at list
/// position `index`.
pub open spec fn usable_at(planes: Seq<Plane>, index: int) -> spec_fn(int) -> bool {
    |at: int| planes[at].spec_supports(index)
}

/// The positions of `planes` whose plane can be bound to the CRTC at list
/// position `index` and is a primary plane.
pub open spec fn usable_primary_at(planes: Seq<Plane>, index: int) -> spec_fn(int) -> bool {
    |at: int| planes[at].spec_supports(index) && planes[at].spec_is_primary()
}

/// Position of the plane to scan out from, for the CRTC at list position
/// `index`: the first plane that can be bound to it and is primary; where
/// there is none, the first that can be bound to it; the length of the list
/// where none can.
pub open spec fn chosen_plane_position(planes: Seq<Plane>, index: int) -> int {
    let primary = first_where(usable_primary_at(planes, index), 0, planes.len() as int);
    if primary < planes.len() {
        primary
    } else {
        first_where(usable_at(planes, index), 0, planes.len() as int)
    }
}

/// The chosen plane can always be bound to the CRTC; it is primary whenever a
/// primary plane can be bound to it; and a plane is chosen whenever any can.
pub proof fn lemma_chosen_plane_fits(planes: Seq<Plane>, index: int)
    ensures
        0 <= chosen_plane_position(planes, index) <= planes.len(),
        chosen_plane_position(planes, index) < planes.len() ==> planes[chosen_plane_position(
            planes,
            index,
        )].spec_supports(index),
        forall|at: int|
            0 <= at < planes.len() && (#[trigger] planes[at]).spec_supports(index)
                && planes[at].spec_is_primary() ==> {
                &&& chosen_plane_position(planes, index) <= at
                &&& planes[chosen_plane_position(planes, index)].spec_is_primary()
            },
        forall|at: int|
            0 <= at < planes.len() && (#[trigger] planes[at]).spec_supports(index)
                ==> chosen_plane_position(planes, index) < planes.len(),
{
    let usable = usable_at(planes, index);
    let primary = usable_primary_at(planes, index);
    let count = planes.len() as int;
    lemma_first_where(usable, 0, count);
    lemma_first_where(primary, 0, count);
    assert forall|at: int|
        0 <= at < count && (#[trigger] planes[at]).spec_supports(index)
            && planes[at].spec_is_primary() implies {
        &&& chosen_plane_position(planes, index) <= at
        &&& planes[chosen_plane_position(planes, index)].spec_is_primary()
    } by {
        assert(primary(at));
        assert(first_where(primary, 0, count) <= at);
        assert(primary(first_where(primary, 0, count)));
    }
    assert forall|at: int|
        0 <= at < count && (#[trigger] planes[at]).spec_supports(
            index,
        ) implies chosen_plane_position(planes, index) < count by {
        assert(usable(at));
    }
    if first_where(primary, 0, count) < count {
        assert(primary(first_where(primary, 0, count)));
    } else if first_where(usable, 0, count) < count {
        assert(usable(first_where(usable, 0, count)));
    }
}

/// Chooses the plane to scan out from. Only planes that can be bound to the
/// chosen CRTC are considered. Among them a primary plane goes before one that
/// is not; otherwise the one listed first is taken.
pub fn choose_plane<'a>(crtc: &IndexedCrtc, planes: &'a [Plane]) -> (chosen: Result<
    &'a Plane,
    KmsError,
>)
    ensures
        chosen_plane_position(planes@, crtc.index as int) < planes@.len() ==> chosen == Ok::<
            &Plane,
            KmsError,
        >(&planes@[chosen_plane_position(planes@, crtc.index as int)]),
        chosen_plane_position(planes@, crtc.index as int) >= planes@.len() ==> chosen == Err::<
            &Plane,
            KmsError,
        >(KmsError::NoCompatiblePlane),
        chosen matches Ok(plane) ==> plane.spec_supports(crtc.index as int),
        forall|at: int|
            0 <= at < planes@.len() && (#[trigger] planes@[at]).spec_supports(crtc.index as int)
                && planes@[at].spec_is_primary() ==> (chosen matches Ok(plane)
                && plane.spec_is_primary()),
        chosen is Err <==> forall|at: int|
            0 <= at < planes@.len() ==> !(#[trigger] planes@[at]).spec_supports(crtc.index as int),
{
    let count = planes.len();
    let ghost usable = usable_at(planes@, crtc.index as int);
    let ghost primary = usable_primary_at(planes@, crtc.index as int);
    proof {
        lemma_chosen_plane_fits(planes@, crtc.index as int);
        lemma_first_where(usable, 0, count as int);
        lemma_first_where(primary, 0, count as int);
    }
    let mut fallback: Option<usize> = None;
    let mut at: usize = 0;
    while at < count
        invariant
            at <= count,
            count == planes@.len(),
            usable == usable_at(planes@, crtc.index as int),
            primary == usable_primary_at(planes@, crtc.index as int),
            first_where(primary, 0, count as int) == first_where(primary, at as int, count as int),
            match fallback {
                Some(found) => found < at && first_where(usable, 0, count as int) == found,
                None => first_where(usable, 0, count as int) == first_where(
                    usable,
                    at as int,
                    count as int,
                ),
            },
        decreases count - at,
    {
        let plane = &planes[at];
        if plane.supports(crtc.index) {
            assert(usable(at as int));
            if plane.is_primary() {
                assert(primary(at as int));
                return Ok(plane);
            }
            if fallback.is_none() {
                fallback = Some(at);
            }
        } else {
            assert(!usable(at as int));
        }
        assert(!primary(at as int));
        at += 1;
    }
    match fallback {
        Some(found) => Ok(&planes[found]),
        None => {
            proof {
                assert forall|other: int| 0 <= other < planes@.len() implies !(
                #[trigger] planes@[other]).spec_supports(crtc.index as int) by {
                    assert(!usable(other));
                }
            }
            Err(KmsError::NoCompatiblePlane)
        },
    }
}

/// Where exactly one connector of the list is connected, it is the one that
/// is chosen.
pub proof fn lemma_single_connected_is_chosen(connectors: Seq<Connector>, only: int)
    requires
        0 <= only < connectors.len(),
        connectors[only].state == ConnectorState::Connected,
        forall|other: int|
            0 <= other < connectors.len() && other != only ==> (#[trigger] connectors[other]).state
                != ConnectorState::Connected,
    ensures
        first_connected(connectors) == only,
{
    let wanted = connected_at(connectors);
    assert forall|index: int| 0 <= index < only implies !#[trigger] wanted(index) by {
        assert(connectors[index].state != ConnectorState::Connected);
    }
    lemma_first_where_is(wanted, 0, connectors.len() as int, only);
}

/// Where several connectors are connected, the one listed first is chosen:
/// every connected connector stands at or after the chosen position.
pub proof fn lemma_first_connected_is_earliest(connectors: Seq<Connector>, connected: int)
    requires
        0 <= connected < connectors.len(),
        connectors[connected].state == ConnectorState::Connected,
    ensures
        0 <= first_connected(connectors) <= connected,
        connectors[first_connected(connectors)].state == ConnectorState::Connected,
{
    let wanted = connected_at(connectors);
    lemma_first_where(wanted, 0, connectors.len() as int);
    assert(wanted(connected));
    assert(wanted(first_connected(connectors)));
}

} // verus!
