use crate::handles::{ConnectorHandle, CrtcHandle, EncoderHandle, PlaneHandle, PropertyHandle};
use crate::mask::CrtcMask;
use crate::mode::Mode;
use vstd::prelude::*;
use vstd::string::StringExecFns;

verus! {

/// Whether a display is plugged into a connector.
#[derive(Clone, Copy, Debug, PartialEq, Eq, Structural)]
pub enum ConnectorState {
    Connected,
    Disconnected,
    Unknown,
}

/// A physical output, as the device described it when the session began.
#[derive(Debug, PartialEq, Eq)]
pub struct Connector {
    pub handle: ConnectorHandle,
    pub state: ConnectorState,
    /// The modes of the attached display, in the device's order.
    pub modes: Vec<Mode>,
    /// The encoder that drives the connector at present.
    pub current_encoder: Option<EncoderHandle>,
    /// The encoders that can drive it; a slot may be empty.
    pub encoders: Vec<Option<EncoderHandle>>,
}

/// The bridge between a connector and a CRTC.
#[derive(Clone, Copy, Debug, PartialEq, Eq)]
pub struct Encoder {
    pub handle: EncoderHandle,
    /// The CRTC that feeds the encoder at present.
    pub crtc: Option<CrtcHandle>,
    /// The positions in the device's CRTC list that can feed it.
    pub possible_crtcs: CrtcMask,
}

/// A CRTC together with its position in the device's CRTC list. The position
/// is what compatibility masks are tested against.
#[derive(Clone, Copy, Debug, PartialEq, Eq, Structural)]
pub struct IndexedCrtc {
    pub handle: CrtcHandle,
    pub index: usize,
}

/// The value that an object holds for one of its properties, as far as
/// selection reads it.
#[derive(Debug, PartialEq, Eq)]
pub enum PropertyValue {
    /// A value of an enumerated property, with the name of the entry that the
    /// raw value stands for; `None` where it stands for none.
    Enum(Option<String>),
    /// A value of any other kind, as the raw word.
    Raw(u64),
}

/// One property of one object.
#[derive(Debug, PartialEq, Eq)]
pub struct Property {
    pub handle: PropertyHandle,
    pub name: String,
    pub value: PropertyValue,
}

/// Whether `text` reads `wanted`, character for character.
pub fn text_is(text: &String, wanted: &str) -> (same: bool)
    ensures
        same == (text@ == wanted@),
{
    let owned = String::from_str(wanted);
    *text == owned
}

impl Property {
    /// Whether the property says of its plane that it is a primary plane: it
    /// is named `type`, and its value is the enumeration entry `Primary`.
    pub open spec fn spec_marks_primary(&self) -> bool {
        &&& self.name@ == "type"@
        &&& match self.value {
            PropertyValue::Enum(Some(entry)) => entry@ == "Primary"@,
            _ => false,
        }
    }

    /// Whether the property says of its plane that it is a primary plane.
    pub fn marks_primary(&self) -> (primary: bool)
        ensures
            primary == self.spec_marks_primary(),
    {
        if !text_is(&self.name, "type") {
            return false;
        }
        match &self.value {
            PropertyValue::Enum(Some(entry)) => text_is(entry, "Primary"),
            _ => false,
        }
    }
}

/// A compositing layer.
#[derive(Debug, PartialEq, Eq)]
pub struct Plane {
    pub handle: PlaneHandle,
    /// The positions in the device's CRTC list that the plane can be bound to.
    pub possible_crtcs: CrtcMask,
    pub properties: Vec<Property>,
}

impl Plane {
    /// Whether one of the plane's properties marks it as a primary plane.
    pub open spec fn spec_is_primary(&self) -> bool {
        exists|index: int|
            0 <= index < self.properties@.len() && (
            #[trigger] self.properties@[index]).spec_marks_primary()
    }

    /// Whether one of the plane's properties marks it as a primary plane.
    pub fn is_primary(&self) -> (primary: bool)
        ensures
            primary == self.spec_is_primary(),
    {
        let mut index: usize = 0;
        while index < self.properties.len()
            invariant
                index <= self.properties.len(),
                forall|earlier: int|
                    0 <= earlier < index ==> !(
                    #[trigger] self.properties@[earlier]).spec_marks_primary(),
            decreases self.properties.len() - index,
        {
            if self.properties[index].marks_primary() {
                return true;
            }
            index += 1;
        }
        false
    }

    /// Whether the plane can be bound to the CRTC at position `index` of the
    /// device's CRTC list.
    pub open spec fn spec_supports(&self, index: int) -> bool {
        self.possible_crtcs@.contains(index)
    }

    /// Whether the plane can be bound to the CRTC at position `index` of the
    /// device's CRTC list.
    pub fn supports(&self, index: usize) -> (held: bool)
        ensures
            held == self.spec_supports(index as int),
    {
        self.possible_crtcs.contains(index)
    }
}

/// What the device reported: every connector, encoder, CRTC and plane.
#[derive(Debug, PartialEq, Eq)]
pub struct ResourceCatalog {
    pub connectors: Vec<Connector>,
    pub encoders: Vec<Encoder>,
    /// The CRTCs in the device's order.
    pub crtcs: Vec<CrtcHandle>,
    pub planes: Vec<Plane>,
}

} // verus!
