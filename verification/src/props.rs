use crate::catalog::{text_is, Property};
use crate::error::KmsError;
use crate::handles::{BlobHandle, PropertyHandle};
use crate::search::{first_where, lemma_first_where};
use vstd::prelude::*;

verus! {

/// The positions of `properties` whose property is named `name`.
pub open spec fn named_at(properties: Seq<Property>, name: Seq<char>) -> spec_fn(int) -> bool {
    |index: int| properties[index].name@ == name
}

/// Position of the first property named `name`, or the length of the list.
pub open spec fn first_named(properties: Seq<Property>, name: Seq<char>) -> int {
    first_where(named_at(properties, name), 0, properties.len() as int)
}

/// Whether `properties` holds a property named `name`.
pub open spec fn has_named(properties: Seq<Property>, name: Seq<char>) -> bool {
    first_named(properties, name) < properties.len()
}

/// Whether at most one of `properties` is named `name`.
pub open spec fn at_most_one_named(properties: Seq<Property>, name: Seq<char>) -> bool {
    forall|first: int, second: int|
        0 <= first < properties.len() && 0 <= second < properties.len() && (
        #[trigger] properties[first]).name@ == name && (#[trigger] properties[second]).name@ == name
            ==> first == second
}

/// Whether none of `names` is the name of two of `properties`.
pub open spec fn names_unique(properties: Seq<Property>, names: Seq<&'static str>) -> bool {
    forall|which: int|
        0 <= which < names.len() ==> at_most_one_named(properties, (#[trigger] names[which])@)
}

/// Looks up the handle of the property named `name`: that of the first
/// property of the list with this name.
pub fn find_property(properties: &[Property], name: &str) -> (found: Option<PropertyHandle>)
    ensures
        has_named(properties@, name@) ==> found == Some(
            properties@[first_named(properties@, name@)].handle,
        ),
        !has_named(properties@, name@) ==> found is None,
        found is None <==> forall|index: int|
            0 <= index < properties@.len() ==> (#[trigger] properties@[index]).name@ != name@,
{
    let ghost wanted = named_at(properties@, name@);
    proof {
        lemma_first_where(wanted, 0, properties@.len() as int);
    }
    let mut index: usize = 0;
    while index < properties.len()
        invariant
            index <= properties.len(),
            wanted == named_at(properties@, name@),
            first_where(wanted, 0, properties@.len() as int) == first_where(
                wanted,
                index as int,
                properties@.len() as int,
            ),
        decreases properties.len() - index,
    {
        if text_is(&properties[index].name, name) {
            assert(wanted(index as int));
            return Some(properties[index].handle);
        }
        assert(!wanted(index as int));
        index += 1;
    }
    proof {
        assert forall|at: int| 0 <= at < properties@.len() implies (
        #[trigger] properties@[at]).name@ != name@ by {
            assert(!wanted(at));
        }
    }
    None
}

/// Whether at most one of `properties` is named `name`.
pub fn is_name_unique(properties: &[Property], name: &str) -> (unique: bool)
    ensures
        unique == at_most_one_named(properties@, name@),
{
    let mut seen: Option<usize> = None;
    let mut index: usize = 0;
    while index < properties.len()
        invariant
            index <= properties.len(),
            match seen {
                Some(at) => at < index && properties@[at as int].name@ == name@ && forall|
                    other: int,
                |
                    0 <= other < index && other != at ==> (#[trigger] properties@[other]).name@
                        != name@,
                None => forall|other: int|
                    0 <= other < index ==> (#[trigger] properties@[other]).name@ != name@,
            },
        decreases properties.len() - index,
    {
        if text_is(&properties[index].name, name) {
            match seen {
                Some(at) => {
                    assert(properties@[at as int].name@ == name@);
                    assert(properties@[index as int].name@ == name@);
                    return false;
                },
                None => {
                    seen = Some(index);
                },
            }
        }
        index += 1;
    }
    true
}

/// Whether none of `names` is the name of two of `properties`.
pub fn has_unique_names(properties: &[Property], names: &[&'static str]) -> (unique: bool)
    ensures
        unique == names_unique(properties@, names@),
{
    let mut which: usize = 0;
    while which < names.len()
        invariant
            which <= names.len(),
            forall|earlier: int|
                0 <= earlier < which ==> at_most_one_named(
                    properties@,
                    (#[trigger] names@[earlier])@,
                ),
        decreases names.len() - which,
    {
        if !is_name_unique(properties, names[which]) {
            return false;
        }
        which += 1;
    }
    true
}

/// The positions of `names` whose name none of `properties` has.
pub open spec fn missing_at(properties: Seq<Property>, names: Seq<&'static str>) -> spec_fn(
    int,
) -> bool {
    |which: int| !has_named(properties, names[which]@)
}

/// Position of the first of `names` that none of `properties` has, or the
/// length of `names`.
pub open spec fn first_missing(properties: Seq<Property>, names: Seq<&'static str>) -> int {
    first_where(missing_at(properties, names), 0, names.len() as int)
}

/// The handles of the properties named `names`, in the order of `names`; or
/// the first name that none of `properties` has.
pub open spec fn spec_resolve_properties(
    properties: Seq<Property>,
    names: Seq<&'static str>,
) -> Result<Seq<PropertyHandle>, KmsError> {
    let missing = first_missing(properties, names);
    if missing < names.len() {
        Err(KmsError::MissingRequiredProperty(names[missing]))
    } else {
        Ok(
            Seq::new(
                names.len(),
                |which: int| properties[first_named(properties, names[which]@)].handle,
            ),
        )
    }
}

/// Resolves every one of `names` against the property list of one object. The
/// result holds one handle for each name, in the order of `names`. Where a
/// name is missing, the first such name is reported.
pub fn resolve_properties(properties: &[Property], names: &[&'static str]) -> (resolved: Result<
    Vec<PropertyHandle>,
    KmsError,
>)
    requires
        names_unique(properties@, names@),
    ensures
        match (resolved, spec_resolve_properties(properties@, names@)) {
            (Ok(handles), Ok(expected)) => handles@ == expected,
            (Err(error), Err(expected)) => error == expected,
            _ => false,
        },
{
    let ghost wanted = missing_at(properties@, names@);
    proof {
        lemma_first_where(wanted, 0, names@.len() as int);
    }
    let mut handles: Vec<PropertyHandle> = Vec::new();
    let mut which: usize = 0;
    while which < names.len()
        invariant
            which <= names.len(),
            wanted == missing_at(properties@, names@),
            first_where(wanted, 0, names@.len() as int) == first_where(
                wanted,
                which as int,
                names@.len() as int,
            ),
            handles@.len() == which,
            forall|earlier: int|
                0 <= earlier < which ==> #[trigger] handles@[earlier] == properties@[first_named(
                    properties@,
                    names@[earlier]@,
                )].handle,
        decreases names.len() - which,
    {
        match find_property(properties, names[which]) {
            None => {
                assert(wanted(which as int));
                return Err(KmsError::MissingRequiredProperty(names[which]));
            },
            Some(handle) => {
                assert(!wanted(which as int));
                handles.push(handle);
            },
        }
        which += 1;
    }
    proof {
        let expected = spec_resolve_properties(properties@, names@);
        assert(expected is Ok);
        assert(handles@ =~= expected->Ok_0);
    }
    Ok(handles)
}

/// The handles of every property that a transaction sets, and the blob that
/// holds the chosen mode. Each handle belongs to one object: a name shared by
/// two objects is resolved once for each.
#[derive(Clone, Copy, Debug, PartialEq, Eq)]
pub struct CommitPropertyCache {
    /// Property `CRTC_ID` of the connector.
    pub connector_crtc_id: PropertyHandle,
    /// Property `MODE_ID` of the CRTC.
    pub crtc_mode_id: PropertyHandle,
    /// Property `ACTIVE` of the CRTC.
    pub crtc_active: PropertyHandle,
    /// Property `IN_FENCE_FD` of the plane.
    pub plane_in_fence_fd: PropertyHandle,
    /// Property `FB_ID` of the plane.
    pub plane_fb_id: PropertyHandle,
    /// Property `CRTC_ID` of the plane.
    pub plane_crtc_id: PropertyHandle,
    /// Property `SRC_X` of the plane.
    pub plane_src_x: PropertyHandle,
    /// Property `SRC_Y` of the plane.
    pub plane_src_y: PropertyHandle,
    /// Property `SRC_W` of the plane.
    pub plane_src_w: PropertyHandle,
    /// Property `SRC_H` of the plane.
    pub plane_src_h: PropertyHandle,
    /// Property `CRTC_X` of the plane.
    pub plane_crtc_x: PropertyHandle,
    /// Property `CRTC_Y` of the plane.
    pub plane_crtc_y: PropertyHandle,
    /// Property `CRTC_W` of the plane.
    pub plane_crtc_w: PropertyHandle,
    /// Property `CRTC_H` of the plane.
    pub plane_crtc_h: PropertyHandle,
    /// The blob that holds the chosen mode.
    pub blob_mode: BlobHandle,
}

/// The names that must resolve on the connector.
pub open spec fn connector_property_names() -> Seq<&'static str> {
    seq!["CRTC_ID"]
}

/// The names that must resolve on the CRTC.
pub open spec fn crtc_property_names() -> Seq<&'static str> {
    seq!["MODE_ID", "ACTIVE"]
}

/// The names that must resolve on the plane.
pub open spec fn plane_property_names() -> Seq<&'static str> {
    seq![
        "IN_FENCE_FD",
        "FB_ID",
        "CRTC_ID",
        "SRC_X",
        "SRC_Y",
        "SRC_W",
        "SRC_H",
        "CRTC_X",
        "CRTC_Y",
        "CRTC_W",
        "CRTC_H",
    ]
}

/// The names that must resolve on the connector.
pub fn required_connector_properties() -> (names: Vec<&'static str>)
    ensures
        names@ == connector_property_names(),
{
    let names = vec!["CRTC_ID"];
    assert(names@ =~= connector_property_names());
    names
}

/// The names that must resolve on the CRTC.
pub fn required_crtc_properties() -> (names: Vec<&'static str>)
    ensures
        names@ == crtc_property_names(),
{
    let names = vec!["MODE_ID", "ACTIVE"];
    assert(names@ =~= crtc_property_names());
    names
}

/// The names that must resolve on the plane.
pub fn required_plane_properties() -> (names: Vec<&'static str>)
    ensures
        names@ == plane_property_names(),
{
    let names = vec![
        "IN_FENCE_FD",
        "FB_ID",
        "CRTC_ID",
        "SRC_X",
        "SRC_Y",
        "SRC_W",
        "SRC_H",
        "CRTC_X",
        "CRTC_Y",
        "CRTC_W",
        "CRTC_H",
    ];
    assert(names@ =~= plane_property_names());
    names
}

/// The cache for a connector, a CRTC and a plane with these property lists.
/// The connector is resolved first, then the CRTC, then the plane, and the
/// first name that is missing is the one reported.
pub open spec fn spec_cache_commit_properties(
    connector: Seq<Property>,
    crtc: Seq<Property>,
    plane: Seq<Property>,
    blob_mode: BlobHandle,
) -> Result<CommitPropertyCache, KmsError> {
    match spec_resolve_properties(connector, connector_property_names()) {
        Err(error) => Err(error),
        Ok(of_connector) => match spec_resolve_properties(crtc, crtc_property_names()) {
            Err(error) => Err(error),
            Ok(of_crtc) => match spec_resolve_properties(plane, plane_property_names()) {
                Err(error) => Err(error),
                Ok(of_plane) => Ok(
                    CommitPropertyCache {
                        connector_crtc_id: of_connector[0],
                        crtc_mode_id: of_crtc[0],
                        crtc_active: of_crtc[1],
                        plane_in_fence_fd: of_plane[0],
                        plane_fb_id: of_plane[1],
                        plane_crtc_id: of_plane[2],
                        plane_src_x: of_plane[3],
                        plane_src_y: of_plane[4],
                        plane_src_w: of_plane[5],
                        plane_src_h: of_plane[6],
                        plane_crtc_x: of_plane[7],
                        plane_crtc_y: of_plane[8],
                        plane_crtc_w: of_plane[9],
                        plane_crtc_h: of_plane[10],
                        blob_mode,
                    },
                ),
            },
        },
    }
}

/// Whether the property lists can be resolved at all: no required name is
/// held twice by the list that it is looked up in. A list is looked at only
/// when the ones before it have resolved.
pub open spec fn cacheable(connector: Seq<Property>, crtc: Seq<Property>, plane: Seq<Property>) -> bool {
    &&& names_unique(connector, connector_property_names())
    &&& spec_resolve_properties(connector, connector_property_names()) is Ok ==> {
        &&& names_unique(crtc, crtc_property_names())
        &&& spec_resolve_properties(crtc, crtc_property_names()) is Ok ==> names_unique(
            plane,
            plane_property_names(),
        )
    }
}

/// Whether the property lists can be resolved at all.
pub fn is_cacheable(connector: &[Property], crtc: &[Property], plane: &[Property]) -> (fit: bool)
    ensures
        fit == cacheable(connector@, crtc@, plane@),
{
    let connector_names = required_connector_properties();
    if !has_unique_names(connector, connector_names.as_slice()) {
        return false;
    }
    if resolve_properties(connector, connector_names.as_slice()).is_err() {
        return true;
    }
    let crtc_names = required_crtc_properties();
    if !has_unique_names(crtc, crtc_names.as_slice()) {
        return false;
    }
    if resolve_properties(crtc, crtc_names.as_slice()).is_err() {
        return true;
    }
    let plane_names = required_plane_properties();
    has_unique_names(plane, plane_names.as_slice())
}

/// Resolves the handles of all properties that a transaction sets, against
/// the property lists of the chosen connector, CRTC and plane, and records
/// the blob that holds the chosen mode.
pub fn cache_commit_properties(
    connector: &[Property],
    crtc: &[Property],
    plane: &[Property],
    blob_mode: BlobHandle,
) -> (cache: Result<CommitPropertyCache, KmsError>)
    requires
        cacheable(connector@, crtc@, plane@),
    ensures
        cache == spec_cache_commit_properties(connector@, crtc@, plane@, blob_mode),
{
    let connector_names = required_connector_properties();
    let of_connector = match resolve_properties(connector, connector_names.as_slice()) {
        Err(error) => {
            return Err(error);
        },
        Ok(handles) => handles,
    };
    let crtc_names = required_crtc_properties();
    let of_crtc = match resolve_properties(crtc, crtc_names.as_slice()) {
        Err(error) => {
            return Err(error);
        },
        Ok(handles) => handles,
    };
    let plane_names = required_plane_properties();
    let of_plane = match resolve_properties(plane, plane_names.as_slice()) {
        Err(error) => {
            return Err(error);
        },
        Ok(handles) => handles,
    };
    Ok(
        CommitPropertyCache {
            connector_crtc_id: of_connector[0],
            crtc_mode_id: of_crtc[0],
            crtc_active: of_crtc[1],
            plane_in_fence_fd: of_plane[0],
            plane_fb_id: of_plane[1],
            plane_crtc_id: of_plane[2],
            plane_src_x: of_plane[3],
            plane_src_y: of_plane[4],
            plane_src_w: of_plane[5],
            plane_src_h: of_plane[6],
            plane_crtc_x: of_plane[7],
            plane_crtc_y: of_plane[8],
            plane_crtc_w: of_plane[9],
            plane_crtc_h: of_plane[10],
            blob_mode,
        },
    )
}

} // verus!
