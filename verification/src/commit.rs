use crate::handles::{
    BlobHandle, ConnectorHandle, CrtcHandle, FramebufferHandle, PlaneHandle, PropertyHandle,
};
use vstd::prelude::*;

verus! {

/// The object that a property of a transaction is set on.
#[derive(Clone, Copy, Debug, PartialEq, Eq, Structural)]
pub enum ObjectHandle {
    Connector(ConnectorHandle),
    Crtc(CrtcHandle),
    Plane(PlaneHandle),
}

/// The value that a property is set to.
#[derive(Clone, Copy, Debug, PartialEq, Eq, Structural)]
pub enum CommitValue {
    /// A reference to a CRTC.
    Crtc(CrtcHandle),
    /// A reference to a framebuffer.
    Framebuffer(FramebufferHandle),
    /// A reference to a blob.
    Blob(BlobHandle),
    Boolean(bool),
    UnsignedRange(u64),
    SignedRange(i64),
}

/// One entry of a transaction: on `object`, set `property` to `value`.
#[derive(Clone, Copy, Debug, PartialEq, Eq, Structural)]
pub struct PropertyAssignment {
    pub object: ObjectHandle,
    pub property: PropertyHandle,
    pub value: CommitValue,
}

/// One transaction: the device applies all of its entries, or none.
#[derive(Debug, PartialEq, Eq)]
pub struct AtomicRequest {
    /// Whether the device may change the timing of the output for it.
    pub allow_modeset: bool,
    pub assignments: Vec<PropertyAssignment>,
}

/// What the device answered to a transaction.
#[derive(Clone, Copy, Debug, PartialEq, Eq, Structural)]
pub enum CommitOutcome {
    /// Every entry was applied.
    Accepted,
    /// No entry was applied.
    Rejected,
}

/// A length in pixels as a 16.16 fixed-point number with no fraction.
pub open spec fn spec_fixed_point(pixels: u16) -> u64 {
    (pixels as int * 65536) as u64
}

/// A length in pixels as a 16.16 fixed-point number with no fraction.
pub fn fixed_point(pixels: u16) -> (fixed: u64)
    ensures
        fixed == spec_fixed_point(pixels),
        fixed as int == pixels as int * 65536,
{
    let wide: u64 = pixels as u64;
    assert(wide << 16 == wide * 65536) by (bit_vector)
        requires
            wide <= 0xffff,
    ;
    wide << 16
}

} // verus!
