//! The decoded packets that the analysis reads.
//!
//! Only what the analysis looks at is kept of each packet; every kind
//! that it passes over is `Other`.

use vstd::prelude::*;
use crate::address::Address;
use crate::time::Timestamp;
use crate::types::{Cid, ConnectionHandle, ConnectionResponseResult, Psm};

verus! {

/// Whether the controller reports success.
#[derive(Clone, Copy, PartialEq, Eq, Structural, Debug)]
pub enum ErrorCode {
    Success,
    /// Any status but success.
    Failure,
}

/// Why the host asks for a link to be torn down.
#[derive(Clone, Copy, PartialEq, Eq, Structural, Debug)]
pub enum DisconnectReason {
    /// The device is about to power off. The controller may not confirm
    /// such a teardown.
    RemoteDeviceTerminatedConnectionPowerOff,
    /// Any other reason.
    Other,
}

/// A command from the host to the controller.
#[derive(Clone, Copy, PartialEq, Eq, Structural, Debug)]
pub enum Command {
    Reset,
    CreateConnection { bd_addr: Address },
    AcceptConnectionRequest { bd_addr: Address },
    Disconnect { connection_handle: ConnectionHandle, reason: DisconnectReason },
    Other,
}

/// One device in an advertising report.
pub struct LeAdvertisingResponse {
    pub address: Address,
    pub advertising_data: Vec<u8>,
}

/// An LE event from the controller.
pub enum LeMetaEvent {
    LeConnectionComplete {
        status: ErrorCode,
        connection_handle: ConnectionHandle,
        peer_address: Address,
    },
    LeEnhancedConnectionComplete {
        status: ErrorCode,
        connection_handle: ConnectionHandle,
        peer_address: Address,
    },
    LeAdvertisingReport { responses: Vec<LeAdvertisingResponse> },
    LeExtendedAdvertisingReport { responses: Vec<LeAdvertisingResponse> },
    Other,
}

/// An event from the controller.
pub enum Event {
    ConnectionComplete { status: ErrorCode, connection_handle: ConnectionHandle, bd_addr: Address },
    SynchronousConnectionComplete {
        status: ErrorCode,
        connection_handle: ConnectionHandle,
        bd_addr: Address,
    },
    DisconnectionComplete { connection_handle: ConnectionHandle },
    ExtendedInquiryResult { address: Address, extended_inquiry_response: Vec<u8> },
    RemoteNameRequestComplete { status: ErrorCode, bd_addr: Address, remote_name: Vec<u8> },
    LeMetaEvent(LeMetaEvent),
    Other,
}

/// A channel-control frame.
#[derive(Clone, Copy, PartialEq, Eq, Structural, Debug)]
pub enum Control {
    ConnectionRequest { psm: Psm, source_cid: Cid },
    ConnectionResponse { result: ConnectionResponseResult, destination_cid: Cid, source_cid: Cid },
    DisconnectionResponse { destination_cid: Cid, source_cid: Cid },
    Other,
}

/// What a data packet on a link carries.
#[derive(Clone, Copy, PartialEq, Eq, Structural, Debug)]
pub enum AclContent {
    Control(Control),
    Other,
}

/// A data packet on the link `handle`.
#[derive(Clone, Copy, PartialEq, Eq, Structural, Debug)]
pub struct Acl {
    pub handle: ConnectionHandle,
    pub content: AclContent,
}

/// What a packet is.
pub enum PacketChild {
    HciCommand(Command),
    HciEvent(Event),
    /// Data from the host to the peer.
    AclTx(Acl),
    /// Data from the peer to the host.
    AclRx(Acl),
    Other,
}

/// One packet of the log, with the time at which it was captured.
pub struct Packet {
    pub ts: Timestamp,
    pub inner: PacketChild,
}

} // verus!
