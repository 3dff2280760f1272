use crate::catalog::{ConnectorState, IndexedCrtc, Property, ResourceCatalog};
use crate::commit::{
    fixed_point, spec_fixed_point, AtomicRequest, CommitValue, ObjectHandle, PropertyAssignment,
};
use crate::error::KmsError;
use crate::framebuffer::FrameBufferObject;
use crate::handles::{BlobHandle, ConnectorHandle, FramebufferHandle, PlaneHandle};
use crate::mode::{best_mode_index, choose_mode, lemma_best_mode_index_is_first_best, Mode};
use crate::props::{
    cache_commit_properties, cacheable, spec_cache_commit_properties, CommitPropertyCache,
};
use crate::search::lemma_first_where;
use crate::select::{
    choose_connector, choose_crtc, choose_plane, chosen_plane_position, connected_at,
    encoder_slots, first_connected, lemma_chosen_crtc_is_listed, lemma_chosen_plane_fits,
    spec_choose_crtc,
};
use vstd::prelude::*;

verus! {

/// The output path of a session: one connector, one of its modes, one CRTC
/// and one plane. It is chosen once and does not change.
#[derive(Clone, Copy, Debug, PartialEq, Eq)]
pub struct DrmContext {
    pub connector: ConnectorHandle,
    pub mode: Mode,
    pub crtc: IndexedCrtc,
    pub plane: PlaneHandle,
}

impl DrmContext {
    /// The output path for a device that reported `catalog`. The connector is
    /// chosen first, then its mode, then the CRTC, then the plane; the first
    /// of these steps that fails gives the error.
    pub open spec fn spec_new(catalog: ResourceCatalog) -> Result<DrmContext, KmsError> {
        let connectors = catalog.connectors@;
        if first_connected(connectors) >= connectors.len() {
            Err(KmsError::NoConnectedOutput)
        } else {
            let connector = connectors[first_connected(connectors)];
            let modes = connector.modes@;
            if modes.len() == 0 {
                Err(KmsError::NoModesAvailable)
            } else {
                match spec_choose_crtc(
                    connector.current_encoder,
                    connector.encoders@,
                    catalog.encoders@,
                    catalog.crtcs@,
                ) {
                    Err(error) => Err(error),
                    Ok(crtc) => {
                        let planes = catalog.planes@;
                        let plane = chosen_plane_position(planes, crtc.index as int);
                        if plane >= planes.len() {
                            Err(KmsError::NoCompatiblePlane)
                        } else {
                            Ok(
                                DrmContext {
                                    connector: connector.handle,
                                    mode: modes[best_mode_index(modes, modes.len() as int)],
                                    crtc,
                                    plane: planes[plane].handle,
                                },
                            )
                        }
                    },
                }
            }
        }
    }

    /// Chooses the output path from what the device reported.
    pub fn new(catalog: &ResourceCatalog) -> (chosen: Result<DrmContext, KmsError>)
        ensures
            chosen == Self::spec_new(*catalog),
    {
        let connector = match choose_connector(catalog.connectors.as_slice()) {
            Err(error) => {
                return Err(error);
            },
            Ok(connector) => connector,
        };
        let mode = match choose_mode(connector.modes.as_slice()) {
            Err(error) => {
                return Err(error);
            },
            Ok(mode) => mode,
        };
        let crtc = match choose_crtc(
            connector.current_encoder,
            connector.encoders.as_slice(),
            catalog.encoders.as_slice(),
            catalog.crtcs.as_slice(),
        ) {
            Err(error) => {
                return Err(error);
            },
            Ok(crtc) => crtc,
        };
        let plane = match choose_plane(&crtc, catalog.planes.as_slice()) {
            Err(error) => {
                return Err(error);
            },
            Ok(plane) => plane,
        };
        Ok(DrmContext { connector: connector.handle, mode, crtc, plane: plane.handle })
    }
}

/// The parts of a chosen output path fit together: its connector is a
/// connected connector of the device and its mode one of that connector's
/// modes; its CRTC stands in the device's list at the position recorded with
/// it; and its plane is a plane of the device that can be bound to the CRTC
/// at that position.
pub proof fn lemma_selection_fits_together(catalog: ResourceCatalog)
    ensures
        DrmContext::spec_new(catalog) matches Ok(chosen) ==> {
            &&& exists|at: int|
                0 <= at < catalog.connectors@.len() && (#[trigger] catalog.connectors@[at]).handle
                    == chosen.connector && catalog.connectors@[at].state
                    == ConnectorState::Connected && catalog.connectors@[at].modes@.contains(
                    chosen.mode,
                )
            &&& chosen.crtc.index < catalog.crtcs@.len()
            &&& catalog.crtcs@[chosen.crtc.index as int] == chosen.crtc.handle
            &&& exists|at: int|
                0 <= at < catalog.planes@.len() && (#[trigger] catalog.planes@[at]).handle
                    == chosen.plane && catalog.planes@[at].spec_supports(chosen.crtc.index as int)
        },
{
    if let Ok(chosen) = DrmContext::spec_new(catalog) {
        let connectors = catalog.connectors@;
        let first = first_connected(connectors);
        lemma_first_where(connected_at(connectors), 0, connectors.len() as int);
        let connector = connectors[first];
        let modes = connector.modes@;
        lemma_best_mode_index_is_first_best(modes, modes.len() as int);
        assert(modes.take(modes.len() as int) =~= modes);
        assert(connector.handle == chosen.connector);
        assert(modes[best_mode_index(modes, modes.len() as int)] == chosen.mode);
        assert(catalog.crtcs@.len() == catalog.crtcs.len());
        lemma_chosen_crtc_is_listed(
            encoder_slots(connector.current_encoder, connector.encoders@),
            catalog.encoders@,
            catalog.crtcs@,
            0,
        );
        lemma_chosen_plane_fits(catalog.planes@, chosen.crtc.index as int);
        let plane = chosen_plane_position(catalog.planes@, chosen.crtc.index as int);
        assert(catalog.planes@[plane].handle == chosen.plane);
    }
}

/// The entries that bind the output path: the connector to the CRTC, the CRTC
/// to the blob of the mode, and the CRTC switched on.
pub open spec fn modeset_assignments(
    selection: DrmContext,
    cache: CommitPropertyCache,
) -> Seq<PropertyAssignment> {
    let connector = ObjectHandle::Connector(selection.connector);
    let crtc = ObjectHandle::Crtc(selection.crtc.handle);
    seq![
        PropertyAssignment {
            object: connector,
            property: cache.connector_crtc_id,
            value: CommitValue::Crtc(selection.crtc.handle),
        },
        PropertyAssignment {
            object: crtc,
            property: cache.crtc_mode_id,
            value: CommitValue::Blob(cache.blob_mode),
        },
        PropertyAssignment {
            object: crtc,
            property: cache.crtc_active,
            value: CommitValue::Boolean(true),
        },
    ]
}

/// The entries that put a framebuffer on the plane: the whole surface, at the
/// top left corner of the output, in the size of the mode.
pub open spec fn plane_assignments(
    selection: DrmContext,
    cache: CommitPropertyCache,
    framebuffer: FramebufferHandle,
) -> Seq<PropertyAssignment> {
    let plane = ObjectHandle::Plane(selection.plane);
    let mode = selection.mode;
    seq![
        PropertyAssignment {
            object: plane,
            property: cache.plane_fb_id,
            value: CommitValue::Framebuffer(framebuffer),
        },
        PropertyAssignment {
            object: plane,
            property: cache.plane_crtc_id,
            value: CommitValue::Crtc(selection.crtc.handle),
        },
        PropertyAssignment {
            object: plane,
            property: cache.plane_src_x,
            value: CommitValue::UnsignedRange(0),
        },
        PropertyAssignment {
            object: plane,
            property: cache.plane_src_y,
            value: CommitValue::UnsignedRange(0),
        },
        PropertyAssignment {
            object: plane,
            property: cache.plane_src_w,
            value: CommitValue::UnsignedRange(spec_fixed_point(mode.width)),
        },
        PropertyAssignment {
            object: plane,
            property: cache.plane_src_h,
            value: CommitValue::UnsignedRange(spec_fixed_point(mode.height)),
        },
        PropertyAssignment {
            object: plane,
            property: cache.plane_crtc_x,
            value: CommitValue::SignedRange(0),
        },
        PropertyAssignment {
            object: plane,
            property: cache.plane_crtc_y,
            value: CommitValue::SignedRange(0),
        },
        PropertyAssignment {
            object: plane,
            property: cache.plane_crtc_w,
            value: CommitValue::UnsignedRange(mode.width as u64),
        },
        PropertyAssignment {
            object: plane,
            property: cache.plane_crtc_h,
            value: CommitValue::UnsignedRange(mode.height as u64),
        },
    ]
}

/// The entries of one transaction. The entries for the plane are always
/// there; those that bind the output path stand before them where a modeset
/// is allowed, and only there.
pub open spec fn commit_assignments(
    selection: DrmContext,
    cache: CommitPropertyCache,
    allow_modeset: bool,
    framebuffer: FramebufferHandle,
) -> Seq<PropertyAssignment> {
    if allow_modeset {
        modeset_assignments(selection, cache) + plane_assignments(selection, cache, framebuffer)
    } else {
        plane_assignments(selection, cache, framebuffer)
    }
}

/// A transaction that allows no modeset touches the plane and nothing else:
/// it does not bind the connector, set the mode or switch the CRTC on. One
/// that allows a modeset holds these three entries, and in both cases every
/// entry for the plane is there.
pub proof fn lemma_modeset_entries_only_when_allowed(
    selection: DrmContext,
    cache: CommitPropertyCache,
    framebuffer: FramebufferHandle,
)
    ensures
        forall|entry: PropertyAssignment|
            commit_assignments(selection, cache, false, framebuffer).contains(entry)
                ==> entry.object == ObjectHandle::Plane(selection.plane),
        forall|entry: PropertyAssignment|
            modeset_assignments(selection, cache).contains(entry) ==> !(entry.object
                is Plane) && !commit_assignments(selection, cache, false, framebuffer).contains(
                entry,
            ),
        forall|entry: PropertyAssignment|
            modeset_assignments(selection, cache).contains(entry) ==> commit_assignments(
                selection,
                cache,
                true,
                framebuffer,
            ).contains(entry),
        forall|entry: PropertyAssignment|
            plane_assignments(selection, cache, framebuffer).contains(entry) ==> commit_assignments(
                selection,
                cache,
                true,
                framebuffer,
            ).contains(entry) && commit_assignments(selection, cache, false, framebuffer).contains(
                entry,
            ),
        modeset_assignments(selection, cache).len() == 3,
        plane_assignments(selection, cache, framebuffer).len() == 10,
{
    let modeset = modeset_assignments(selection, cache);
    let plane = plane_assignments(selection, cache, framebuffer);
    let full = commit_assignments(selection, cache, true, framebuffer);
    assert forall|entry: PropertyAssignment| plane.contains(entry) implies entry.object
        == ObjectHandle::Plane(selection.plane) by {
        let at = choose|at: int| 0 <= at < plane.len() && plane[at] == entry;
        assert(plane[at].object == ObjectHandle::Plane(selection.plane));
    }
    assert forall|entry: PropertyAssignment| modeset.contains(entry) implies !(entry.object
        is Plane) && full.contains(entry) by {
        let at = choose|at: int| 0 <= at < modeset.len() && modeset[at] == entry;
        assert(!(modeset[at].object is Plane));
        assert(full[at] == entry);
    }
    assert forall|entry: PropertyAssignment| plane.contains(entry) implies full.contains(entry) by {
        let at = choose|at: int| 0 <= at < plane.len() && plane[at] == entry;
        assert(full[at + 3] == entry);
    }
}

/// A display session: the output path, and the handles that a transaction
/// for it needs. Nothing in it changes once it is built.
#[derive(Clone, Copy, Debug, PartialEq, Eq)]
pub struct KmsContext {
    selection: DrmContext,
    property_cache: CommitPropertyCache,
}

impl KmsContext {
    /// The output path of the session.
    pub closed spec fn spec_selection(&self) -> DrmContext {
        self.selection
    }

    /// The handles that the session's transactions use.
    pub closed spec fn spec_property_cache(&self) -> CommitPropertyCache {
        self.property_cache
    }

    /// Builds the session for an output path. The three lists are the
    /// properties of the chosen connector, CRTC and plane; `blob_mode` is the
    /// blob that holds the chosen mode. The session exists only if every
    /// required property resolved.
    pub fn new(
        selection: DrmContext,
        connector: &[Property],
        crtc: &[Property],
        plane: &[Property],
        blob_mode: BlobHandle,
    ) -> (session: Result<KmsContext, KmsError>)
        requires
            cacheable(connector@, crtc@, plane@),
        ensures
            match spec_cache_commit_properties(connector@, crtc@, plane@, blob_mode) {
                Ok(cache) => session is Ok && session->Ok_0.spec_selection() == selection
                    && session->Ok_0.spec_property_cache() == cache,
                Err(error) => session == Err::<KmsContext, KmsError>(error),
            },
    {
        match cache_commit_properties(connector, crtc, plane, blob_mode) {
            Err(error) => Err(error),
            Ok(property_cache) => Ok(KmsContext { selection, property_cache }),
        }
    }

    /// The output path of the session.
    pub fn selection(&self) -> (selection: DrmContext)
        ensures
            selection == self.spec_selection(),
    {
        self.selection
    }

    /// The handles that the session's transactions use.
    pub fn property_cache(&self) -> (cache: CommitPropertyCache)
        ensures
            cache == self.spec_property_cache(),
    {
        self.property_cache
    }

    /// Width and height of the chosen mode in pixels.
    pub fn resolution(&self) -> (size: [usize; 2])
        ensures
            size[0] == self.spec_selection().mode.width,
            size[1] == self.spec_selection().mode.height,
    {
        [self.selection.mode.width as usize, self.selection.mode.height as usize]
    }

    /// Builds the transaction that shows `fbo`. With `allow_modeset` it also
    /// binds the output path and may change the output's timing.
    pub fn atomic_commit(&self, allow_modeset: bool, fbo: &FrameBufferObject) -> (request:
        AtomicRequest)
        ensures
            request.allow_modeset == allow_modeset,
            request.assignments@ == commit_assignments(
                self.spec_selection(),
                self.spec_property_cache(),
                allow_modeset,
                fbo.spec_framebuffer(),
            ),
    {
        let cache = self.property_cache;
        let mode = self.selection.mode;
        let crtc = self.selection.crtc.handle;
        let on_connector = ObjectHandle::Connector(self.selection.connector);
        let on_crtc = ObjectHandle::Crtc(crtc);
        let on_plane = ObjectHandle::Plane(self.selection.plane);
        let mut assignments: Vec<PropertyAssignment> = Vec::new();
        if allow_modeset {
            assignments.push(
                PropertyAssignment {
                    object: on_connector,
                    property: cache.connector_crtc_id,
                    value: CommitValue::Crtc(crtc),
                },
            );
            assignments.push(
                PropertyAssignment {
                    object: on_crtc,
                    property: cache.crtc_mode_id,
                    value: CommitValue::Blob(cache.blob_mode),
                },
            );
            assignments.push(
                PropertyAssignment {
                    object: on_crtc,
                    property: cache.crtc_active,
                    value: CommitValue::Boolean(true),
                },
            );
        }
        assignments.push(
            PropertyAssignment {
                object: on_plane,
                property: cache.plane_fb_id,
                value: CommitValue::Framebuffer(fbo.framebuffer()),
            },
        );
        assignments.push(
            PropertyAssignment {
                object: on_plane,
                property: cache.plane_crtc_id,
                value: CommitValue::Crtc(crtc),
            },
        );
        assignments.push(
            PropertyAssignment {
                object: on_plane,
                property: cache.plane_src_x,
                value: CommitValue::UnsignedRange(0),
            },
        );
        assignments.push(
            PropertyAssignment {
                object: on_plane,
                property: cache.plane_src_y,
                value: CommitValue::UnsignedRange(0),
            },
        );
        assignments.push(
            PropertyAssignment {
                object: on_plane,
                property: cache.plane_src_w,
                value: CommitValue::UnsignedRange(fixed_point(mode.width)),
            },
        );
        assignments.push(
            PropertyAssignment {
                object: on_plane,
                property: cache.plane_src_h,
                value: CommitValue::UnsignedRange(fixed_point(mode.height)),
            },
        );
        assignments.push(
            PropertyAssignment {
                object: on_plane,
                property: cache.plane_crtc_x,
                value: CommitValue::SignedRange(0),
            },
        );
        assignments.push(
            PropertyAssignment {
                object: on_plane,
                property: cache.plane_crtc_y,
                value: CommitValue::SignedRange(0),
            },
        );
        assignments.push(
            PropertyAssignment {
                object: on_plane,
                property: cache.plane_crtc_w,
                value: CommitValue::UnsignedRange(mode.width as u64),
            },
        );
        assignments.push(
            PropertyAssignment {
                object: on_plane,
                property: cache.plane_crtc_h,
                value: CommitValue::UnsignedRange(mode.height as u64),
            },
        );
        assert(assignments@ =~= commit_assignments(
            self.spec_selection(),
            self.spec_property_cache(),
            allow_modeset,
            fbo.spec_framebuffer(),
        ));
        AtomicRequest { allow_modeset, assignments }
    }
}

} // verus!
