use kmscube::catalog::{text_is, IndexedCrtc, Property, PropertyValue};
use kmscube::commit::{
    fixed_point, AtomicRequest, CommitValue, ObjectHandle, PropertyAssignment,
};
use kmscube::context::{DrmContext, KmsContext};
use kmscube::error::KmsError;
use kmscube::framebuffer::{FrameBufferObject, LayoutModifier, PixelFormat, SurfaceRequest};
use kmscube::handles::{
    BlobHandle, ConnectorHandle, CrtcHandle, FramebufferHandle, PlaneHandle, PropertyHandle,
};
use kmscube::mode::Mode;
use kmscube::props::{
    cache_commit_properties, find_property, has_unique_names, is_cacheable, is_name_unique,
    required_connector_properties, required_crtc_properties, required_plane_properties,
    resolve_properties,
};

fn property(handle: u32, name: &str) -> Property {
    Property { handle: PropertyHandle(handle), name: String::from(name), value: PropertyValue::Raw(0) }
}

fn hd_mode() -> Mode {
    let mut name = [0u8; 32];
    name[..8].copy_from_slice(b"1280x720");
    Mode { name, width: 1280, height: 720, vrefresh: 60, preferred: true }
}

fn output_path() -> DrmContext {
    DrmContext {
        connector: ConnectorHandle(11),
        mode: hd_mode(),
        crtc: IndexedCrtc { handle: CrtcHandle(41), index: 1 },
        plane: PlaneHandle(31),
    }
}

fn connector_properties() -> Vec<Property> {
    vec![property(1, "EDID"), property(2, "DPMS"), property(20, "CRTC_ID")]
}

fn crtc_properties() -> Vec<Property> {
    vec![property(22, "ACTIVE"), property(21, "MODE_ID"), property(23, "OUT_FENCE_PTR")]
}

fn plane_properties() -> Vec<Property> {
    vec![
        property(8, "type"),
        property(17, "FB_ID"),
        property(18, "IN_FENCE_FD"),
        property(20, "CRTC_ID"),
        property(13, "CRTC_X"),
        property(14, "CRTC_Y"),
        property(15, "CRTC_W"),
        property(16, "CRTC_H"),
        property(9, "SRC_X"),
        property(10, "SRC_Y"),
        property(11, "SRC_W"),
        property(12, "SRC_H"),
    ]
}

fn session() -> KmsContext {
    KmsContext::new(
        output_path(),
        &connector_properties(),
        &crtc_properties(),
        &plane_properties(),
        BlobHandle(77),
    )
    .unwrap()
}

fn plane_entries(framebuffer: u32) -> Vec<PropertyAssignment> {
    let on_plane = ObjectHandle::Plane(PlaneHandle(31));
    let entry = |property: u32, value: CommitValue| PropertyAssignment {
        object: on_plane,
        property: PropertyHandle(property),
        value,
    };
    vec![
        entry(17, CommitValue::Framebuffer(FramebufferHandle(framebuffer))),
        entry(20, CommitValue::Crtc(CrtcHandle(41))),
        entry(9, CommitValue::UnsignedRange(0)),
        entry(10, CommitValue::UnsignedRange(0)),
        entry(11, CommitValue::UnsignedRange(83_886_080)),
        entry(12, CommitValue::UnsignedRange(47_185_920)),
        entry(13, CommitValue::SignedRange(0)),
        entry(14, CommitValue::SignedRange(0)),
        entry(15, CommitValue::UnsignedRange(1280)),
        entry(16, CommitValue::UnsignedRange(720)),
    ]
}

fn modeset_entries() -> Vec<PropertyAssignment> {
    vec![
        PropertyAssignment {
            object: ObjectHandle::Connector(ConnectorHandle(11)),
            property: PropertyHandle(20),
            value: CommitValue::Crtc(CrtcHandle(41)),
        },
        PropertyAssignment {
            object: ObjectHandle::Crtc(CrtcHandle(41)),
            property: PropertyHandle(21),
            value: CommitValue::Blob(BlobHandle(77)),
        },
        PropertyAssignment {
            object: ObjectHandle::Crtc(CrtcHandle(41)),
            property: PropertyHandle(22),
            value: CommitValue::Boolean(true),
        },
    ]
}

#[test]
fn text_is_compares_whole_texts() {
    assert!(text_is(&String::from("type"), "type"));
    assert!(!text_is(&String::from("type"), "typ"));
    assert!(!text_is(&String::from("typ"), "type"));
    assert!(!text_is(&String::from("Type"), "type"));
    assert!(text_is(&String::new(), ""));
}

#[test]
fn find_property_takes_the_first_of_that_name() {
    let properties = vec![property(1, "A"), property(2, "B"), property(3, "B")];
    assert_eq!(find_property(&properties, "A"), Some(PropertyHandle(1)));
    assert_eq!(find_property(&properties, "B"), Some(PropertyHandle(2)));
    assert_eq!(find_property(&properties, "C"), None);
    assert_eq!(find_property(&[], "A"), None);
}

#[test]
fn duplicate_names_are_told() {
    let properties = vec![property(1, "A"), property(2, "B"), property(3, "B")];
    assert!(is_name_unique(&properties, "A"));
    assert!(!is_name_unique(&properties, "B"));
    assert!(is_name_unique(&properties, "C"));
    assert!(has_unique_names(&properties, &["A", "C"]));
    assert!(!has_unique_names(&properties, &["A", "B"]));
    assert!(has_unique_names(&properties, &[]));
}

#[test]
fn required_names() {
    assert_eq!(required_connector_properties(), vec!["CRTC_ID"]);
    assert_eq!(required_crtc_properties(), vec!["MODE_ID", "ACTIVE"]);
    assert_eq!(
        required_plane_properties(),
        vec![
            "IN_FENCE_FD", "FB_ID", "CRTC_ID", "SRC_X", "SRC_Y", "SRC_W", "SRC_H", "CRTC_X",
            "CRTC_Y", "CRTC_W", "CRTC_H"
        ]
    );
}

#[test]
fn resolve_gives_the_handles_in_the_order_of_the_names() {
    let properties = vec![property(1, "A"), property(2, "B"), property(3, "C")];
    assert_eq!(
        resolve_properties(&properties, &["C", "A"]),
        Ok(vec![PropertyHandle(3), PropertyHandle(1)])
    );
    assert_eq!(resolve_properties(&properties, &[]), Ok(vec![]));
}

#[test]
fn resolve_reports_the_first_missing_name() {
    let properties = vec![property(1, "A"), property(2, "B")];
    assert_eq!(
        resolve_properties(&properties, &["A", "Y", "B", "X"]),
        Err(KmsError::MissingRequiredProperty("Y"))
    );
}

#[test]
fn cache_resolves_each_name_on_its_own_object() {
    let cache = cache_commit_properties(
        &connector_properties(),
        &crtc_properties(),
        &plane_properties(),
        BlobHandle(77),
    )
    .unwrap();
    assert_eq!(cache.connector_crtc_id, PropertyHandle(20));
    assert_eq!(cache.crtc_mode_id, PropertyHandle(21));
    assert_eq!(cache.crtc_active, PropertyHandle(22));
    assert_eq!(cache.plane_in_fence_fd, PropertyHandle(18));
    assert_eq!(cache.plane_fb_id, PropertyHandle(17));
    assert_eq!(cache.plane_crtc_id, PropertyHandle(20));
    assert_eq!(cache.plane_src_x, PropertyHandle(9));
    assert_eq!(cache.plane_src_y, PropertyHandle(10));
    assert_eq!(cache.plane_src_w, PropertyHandle(11));
    assert_eq!(cache.plane_src_h, PropertyHandle(12));
    assert_eq!(cache.plane_crtc_x, PropertyHandle(13));
    assert_eq!(cache.plane_crtc_y, PropertyHandle(14));
    assert_eq!(cache.plane_crtc_w, PropertyHandle(15));
    assert_eq!(cache.plane_crtc_h, PropertyHandle(16));
    assert_eq!(cache.blob_mode, BlobHandle(77));
}

#[test]
fn cache_reports_the_missing_property() {
    let mut plane = plane_properties();
    plane.retain(|entry| entry.name != "SRC_W" && entry.name != "CRTC_H");
    assert_eq!(
        cache_commit_properties(&connector_properties(), &crtc_properties(), &plane, BlobHandle(1)),
        Err(KmsError::MissingRequiredProperty("SRC_W"))
    );
    let crtc = vec![property(21, "MODE_ID")];
    assert_eq!(
        cache_commit_properties(&connector_properties(), &crtc, &plane, BlobHandle(1)),
        Err(KmsError::MissingRequiredProperty("ACTIVE"))
    );
    assert_eq!(
        cache_commit_properties(&[], &crtc, &plane, BlobHandle(1)),
        Err(KmsError::MissingRequiredProperty("CRTC_ID"))
    );
}

#[test]
fn cacheable_lists_hold_no_required_name_twice() {
    assert!(is_cacheable(&connector_properties(), &crtc_properties(), &plane_properties()));
    let mut twice = plane_properties();
    twice.push(property(99, "FB_ID"));
    assert!(!is_cacheable(&connector_properties(), &crtc_properties(), &twice));
    // A list is only looked at once the ones before it have resolved.
    assert!(is_cacheable(&[], &crtc_properties(), &twice));
    assert!(is_cacheable(&connector_properties(), &[], &twice));
    let mut other = plane_properties();
    other.push(property(98, "type"));
    assert!(is_cacheable(&connector_properties(), &crtc_properties(), &other));
    let doubled = vec![property(20, "CRTC_ID"), property(21, "CRTC_ID")];
    assert!(!is_cacheable(&doubled, &[], &[]));
}

#[test]
fn session_is_not_built_without_every_property() {
    let missing = KmsContext::new(
        output_path(),
        &connector_properties(),
        &crtc_properties(),
        &[property(17, "FB_ID")],
        BlobHandle(77),
    );
    assert_eq!(missing, Err(KmsError::MissingRequiredProperty("IN_FENCE_FD")));
}

#[test]
fn session_keeps_its_output_path() {
    let session = session();
    assert_eq!(session.selection(), output_path());
    assert_eq!(session.resolution(), [1280, 720]);
    assert_eq!(session.property_cache().blob_mode, BlobHandle(77));
}

#[test]
fn fixed_point_is_sixteen_bits_up() {
    assert_eq!(fixed_point(0), 0);
    assert_eq!(fixed_point(1), 65_536);
    assert_eq!(fixed_point(1280), 83_886_080);
    assert_eq!(fixed_point(u16::MAX), 4_294_901_760);
}

#[test]
fn flip_touches_the_plane_only() {
    let fbo = FrameBufferObject::new(&hd_mode(), PixelFormat(1), LayoutModifier(0), FramebufferHandle(50));
    let request = session().atomic_commit(false, &fbo);
    assert_eq!(request, AtomicRequest { allow_modeset: false, assignments: plane_entries(50) });
    for entry in &request.assignments {
        assert_eq!(entry.object, ObjectHandle::Plane(PlaneHandle(31)));
    }
    for entry in modeset_entries() {
        assert!(!request.assignments.contains(&entry));
    }
}

#[test]
fn modeset_binds_the_output_path_too() {
    let fbo = FrameBufferObject::new(&hd_mode(), PixelFormat(1), LayoutModifier(0), FramebufferHandle(51));
    let request = session().atomic_commit(true, &fbo);
    let mut expected = modeset_entries();
    expected.extend(plane_entries(51));
    assert_eq!(request, AtomicRequest { allow_modeset: true, assignments: expected });
    assert_eq!(request.assignments.len(), 13);
}

fn device_text(objects: &[u32], counts: &[u32], props: &[u32], values: &[u64]) -> String {
    let props: Vec<String> =
        props.iter().map(|property| format!("property::Handle({})", property)).collect();
    format!(
        "AtomicModeReq {{ objects: {:?}, count_props_per_object: {:?}, props: [{}], values: {:?} }}",
        objects,
        counts,
        props.join(", "),
        values
    )
}

#[test]
fn device_request_of_a_flip() {
    let fbo = FrameBufferObject::new(&hd_mode(), PixelFormat(1), LayoutModifier(0), FramebufferHandle(50));
    let built = session().atomic_commit(false, &fbo).device_request().unwrap();
    assert_eq!(
        format!("{:?}", built),
        device_text(
            &[31],
            &[10],
            &[9, 10, 11, 12, 13, 14, 15, 16, 17, 20],
            &[0, 0, 83_886_080, 47_185_920, 0, 0, 1280, 720, 50, 41],
        )
    );
}

#[test]
fn device_request_of_a_modeset() {
    let fbo = FrameBufferObject::new(&hd_mode(), PixelFormat(1), LayoutModifier(0), FramebufferHandle(51));
    let built = session().atomic_commit(true, &fbo).device_request().unwrap();
    assert_eq!(
        format!("{:?}", built),
        device_text(
            &[11, 31, 41],
            &[1, 10, 2],
            &[20, 9, 10, 11, 12, 13, 14, 15, 16, 17, 20, 21, 22],
            &[41, 0, 0, 83_886_080, 47_185_920, 0, 0, 1280, 720, 51, 41, 77, 1],
        )
    );
}

#[test]
fn device_request_of_nothing_is_empty() {
    let request = AtomicRequest { allow_modeset: false, assignments: vec![] };
    let built = request.device_request().unwrap();
    assert_eq!(format!("{:?}", built), device_text(&[], &[], &[], &[]));
}

#[test]
fn device_request_keeps_the_later_of_two_values() {
    let on_plane = ObjectHandle::Plane(PlaneHandle(31));
    let entry = |property: u32, value: CommitValue| PropertyAssignment {
        object: on_plane,
        property: PropertyHandle(property),
        value,
    };
    let request = AtomicRequest {
        allow_modeset: false,
        assignments: vec![
            entry(9, CommitValue::UnsignedRange(1)),
            entry(8, CommitValue::Boolean(false)),
            entry(9, CommitValue::SignedRange(-1)),
        ],
    };
    let built = request.device_request().unwrap();
    assert_eq!(format!("{:?}", built), device_text(&[31], &[2], &[8, 9], &[0, u64::MAX]));
}

#[test]
fn device_request_needs_identifiers_other_than_zero() {
    let entry = |object: ObjectHandle, property: u32| PropertyAssignment {
        object,
        property: PropertyHandle(property),
        value: CommitValue::UnsignedRange(0),
    };
    let good = entry(ObjectHandle::Plane(PlaneHandle(31)), 9);
    let no_object = AtomicRequest {
        allow_modeset: false,
        assignments: vec![good, entry(ObjectHandle::Crtc(CrtcHandle(0)), 9)],
    };
    assert!(no_object.device_request().is_none());
    let no_property = AtomicRequest {
        allow_modeset: true,
        assignments: vec![entry(ObjectHandle::Connector(ConnectorHandle(11)), 0), good],
    };
    assert!(no_property.device_request().is_none());
}

#[test]
fn raw_values() {
    assert_eq!(CommitValue::Crtc(CrtcHandle(41)).raw(), 41);
    assert_eq!(CommitValue::Framebuffer(FramebufferHandle(50)).raw(), 50);
    assert_eq!(CommitValue::Blob(BlobHandle(1 << 40)).raw(), 1 << 40);
    assert_eq!(CommitValue::Boolean(true).raw(), 1);
    assert_eq!(CommitValue::Boolean(false).raw(), 0);
    assert_eq!(CommitValue::UnsignedRange(u64::MAX).raw(), u64::MAX);
    assert_eq!(CommitValue::SignedRange(-2).raw(), u64::MAX - 1);
    assert_eq!(CommitValue::SignedRange(7).raw(), 7);
    assert_eq!(ObjectHandle::Connector(ConnectorHandle(11)).raw(), 11);
    assert_eq!(ObjectHandle::Crtc(CrtcHandle(41)).raw(), 41);
    assert_eq!(ObjectHandle::Plane(PlaneHandle(31)).raw(), 31);
}

#[test]
fn surface_request_follows_the_mode() {
    let request = FrameBufferObject::surface_request(&hd_mode(), PixelFormat(875713112), LayoutModifier(0));
    assert_eq!(
        request,
        SurfaceRequest {
            width: 1280,
            height: 720,
            format: PixelFormat(875713112),
            rendering: true,
            scanout: true,
            modifiers: [Some(LayoutModifier(0)), None, None, None],
        }
    );
}

#[test]
fn framebuffer_object_keeps_what_it_was_made_with() {
    let fbo = FrameBufferObject::new(&hd_mode(), PixelFormat(1), LayoutModifier(2), FramebufferHandle(51));
    assert_eq!(fbo.framebuffer(), FramebufferHandle(51));
    assert_eq!(fbo.size(), (1280, 720));
    assert_eq!(fbo.release(), FramebufferHandle(51));
}

#[test]
fn error_messages() {
    assert_eq!(KmsError::NoConnectedOutput.message(), "Did not find any connected connectors");
    assert_eq!(KmsError::NoModesAvailable.message(), "Did not find any modes for chosen connector");
    assert_eq!(
        KmsError::NoCompatibleCrtc.message(),
        "Did not find any crtcs for chosen mode and available encoders"
    );
    assert_eq!(KmsError::NoCompatiblePlane.message(), "Did not find any planes for chosen crtc");
    assert_eq!(
        KmsError::MissingRequiredProperty("FB_ID").message(),
        "Could not find property FB_ID"
    );
    assert_eq!(KmsError::DeviceOpenFailure.message(), "Failed to open drm device");
    assert_eq!(
        KmsError::ResourceQueryFailure.message(),
        "Failed to query control device resources"
    );
    assert_eq!(KmsError::BlobCreationFailure.message(), "Failed to create property blob");
    assert_eq!(KmsError::BufferAllocationFailure.message(), "Failed to create buffer object");
    assert_eq!(KmsError::FramebufferRegistrationFailure.message(), "Failed to create framebuffer");
    assert_eq!(KmsError::CommitRejected.message(), "Failed to perform atomic commit");
    assert_eq!(KmsError::FramebufferReleaseFailure.message(), "Failed to destroy framebuffer");
}
