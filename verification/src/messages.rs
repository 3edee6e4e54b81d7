use vstd::prelude::*;

verus! {

/// A cross-chain message in its canonical stored shape: the decoded text
/// payload. Identity comes from the composite key it is stored under, and
/// a stored message is never updated in place.
#[derive(Clone, Debug, PartialEq, Eq)]
pub struct XCDPSendMessage {
    pub message: String,
}

impl View for XCDPSendMessage {
    type V = Seq<char>;

    open spec fn view(&self) -> Seq<char> {
        self.message@
    }
}

/// The ABI-facing shape of a message, as it arrives from the source
/// chain's log record.
#[derive(Clone, Debug, PartialEq, Eq)]
pub struct XCDPSendMessageSolidity {
    pub message: String,
}

impl View for XCDPSendMessageSolidity {
    type V = Seq<char>;

    open spec fn view(&self) -> Seq<char> {
        self.message@
    }
}

impl From<XCDPSendMessageSolidity> for XCDPSendMessage {
    /// Lossless projection of the ABI-facing shape onto the stored shape.
    fn from(event: XCDPSendMessageSolidity) -> (r: Self) {
        Self { message: event.message }
    }
}

impl vstd::std_specs::convert::FromSpecImpl<XCDPSendMessageSolidity> for XCDPSendMessage {
    open spec fn obeys_from_spec() -> bool {
        true
    }

    open spec fn from_spec(event: XCDPSendMessageSolidity) -> Self {
        XCDPSendMessage { message: event.message }
    }
}

/// The event emitted on the source chain when a cross-chain message is
/// initiated.
#[derive(Clone, Debug, PartialEq, Eq)]
pub struct XTalkMessageInitiated {
    pub message: Vec<u8>,
    pub destination_network: String,
    pub destination_smart_contract_address: [u8; 32],
}

/// The envelope eventually shipped to a destination chain. In this slice
/// it is only constructed with placeholder destination values.
#[derive(Clone, Debug, PartialEq, Eq)]
pub struct Payload {
    pub data: Vec<u8>,
    pub destination_network: String,
    pub destination_contract_address: [u8; 32],
}

} // verus!
