use vstd::prelude::*;
use vstd::string::StringExecFns;

verus! {

/// Why a session could not be built, or a frame not presented.
#[derive(Clone, Copy, Debug, PartialEq, Eq)]
pub enum KmsError {
    /// The display device could not be opened.
    DeviceOpenFailure,
    /// The device did not answer for an object that it had listed.
    ResourceQueryFailure,
    /// No connector is connected.
    NoConnectedOutput,
    /// The chosen connector lists no mode.
    NoModesAvailable,
    /// No encoder of the chosen connector leads to a CRTC.
    NoCompatibleCrtc,
    /// No plane can be bound to the chosen CRTC.
    NoCompatiblePlane,
    /// The object has no property of this name.
    MissingRequiredProperty(&'static str),
    /// The device refused to create the mode blob.
    BlobCreationFailure,
    /// No scanout surface could be allocated.
    BufferAllocationFailure,
    /// The surface could not be registered as a framebuffer.
    FramebufferRegistrationFailure,
    /// The device rejected the transaction as a whole.
    CommitRejected,
    /// A framebuffer could not be unregistered.
    FramebufferReleaseFailure,
}

impl KmsError {
    /// The text that tells a user what failed.
    pub open spec fn spec_message(self) -> Seq<char> {
        match self {
            KmsError::DeviceOpenFailure => "Failed to open drm device"@,
            KmsError::ResourceQueryFailure => "Failed to query control device resources"@,
            KmsError::NoConnectedOutput => "Did not find any connected connectors"@,
            KmsError::NoModesAvailable => "Did not find any modes for chosen connector"@,
            KmsError::NoCompatibleCrtc => "Did not find any crtcs for chosen mode and available encoders"@,
            KmsError::NoCompatiblePlane => "Did not find any planes for chosen crtc"@,
            KmsError::MissingRequiredProperty(name) => "Could not find property "@ + name@,
            KmsError::BlobCreationFailure => "Failed to create property blob"@,
            KmsError::BufferAllocationFailure => "Failed to create buffer object"@,
            KmsError::FramebufferRegistrationFailure => "Failed to create framebuffer"@,
            KmsError::CommitRejected => "Failed to perform atomic commit"@,
            KmsError::FramebufferReleaseFailure => "Failed to destroy framebuffer"@,
        }
    }

    /// The text that tells a user what failed.
    pub fn message(&self) -> (text: String)
        ensures
            text@ == self.spec_message(),
    {
        match self {
            KmsError::DeviceOpenFailure => String::from_str("Failed to open drm device"),
            KmsError::ResourceQueryFailure => String::from_str(
                "Failed to query control device resources",
            ),
            KmsError::NoConnectedOutput => String::from_str("Did not find any connected connectors"),
            KmsError::NoModesAvailable => String::from_str(
                "Did not find any modes for chosen connector",
            ),
            KmsError::NoCompatibleCrtc => String::from_str(
                "Did not find any crtcs for chosen mode and available encoders",
            ),
            KmsError::NoCompatiblePlane => String::from_str("Did not find any planes for chosen crtc"),
            KmsError::MissingRequiredProperty(name) => String::from_str(
                "Could not find property ",
            ).concat(name),
            KmsError::BlobCreationFailure => String::from_str("Failed to create property blob"),
            KmsError::BufferAllocationFailure => String::from_str("Failed to create buffer object"),
            KmsError::FramebufferRegistrationFailure => String::from_str(
                "Failed to create framebuffer",
            ),
            KmsError::CommitRejected => String::from_str("Failed to perform atomic commit"),
            KmsError::FramebufferReleaseFailure => String::from_str("Failed to destroy framebuffer"),
        }
    }
}

} // verus!
