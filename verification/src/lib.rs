//! Negotiation of a display pipeline and the atomic transactions that drive
//! it: the choice of connector, mode, CRTC and plane from what a device
//! reports, the handles of the properties that a transaction sets, and the
//! ring of buffers that are shown in turn.

pub mod catalog;
pub mod commit;
pub mod context;
pub mod error;
pub mod framebuffer;
pub mod handles;
pub mod mask;
pub mod mode;
pub mod props;
pub mod request;
pub mod search;
pub mod select;
pub mod swapchain;
