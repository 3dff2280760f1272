use vstd::prelude::*;

verus! {

/// Identifier of a connector, as the device reports it.
#[derive(Clone, Copy, Debug, PartialEq, Eq, Structural)]
pub struct ConnectorHandle(pub u32);

/// Identifier of an encoder.
#[derive(Clone, Copy, Debug, PartialEq, Eq, Structural)]
pub struct EncoderHandle(pub u32);

/// Identifier of a CRTC. Compatibility masks never speak of this value: they
/// speak of the CRTC's position in the device's CRTC list.
#[derive(Clone, Copy, Debug, PartialEq, Eq, Structural)]
pub struct CrtcHandle(pub u32);

/// Identifier of a plane.
#[derive(Clone, Copy, Debug, PartialEq, Eq, Structural)]
pub struct PlaneHandle(pub u32);

/// Identifier of a property, resolved by name against one object.
#[derive(Clone, Copy, Debug, PartialEq, Eq, Structural)]
pub struct PropertyHandle(pub u32);

/// Identifier of a registered framebuffer.
#[derive(Clone, Copy, Debug, PartialEq, Eq, Structural)]
pub struct FramebufferHandle(pub u32);

/// Identifier of a property blob held by the device.
#[derive(Clone, Copy, Debug, PartialEq, Eq, Structural)]
pub struct BlobHandle(pub u64);

} // verus!
