//! The error taxonomy of the stack. Decode errors are logged and dropped by
//! callers on the ingress path; resource and routing errors are returned to
//! the caller on the egress path.

use vstd::prelude::*;

verus! {

#[derive(Clone, Copy, Debug, PartialEq, Eq, Structural)]
pub enum NetError {
    /// `open` was called on a device that is already up.
    DeviceAlreadyUp,
    /// `close` was called on a device that is already down.
    DeviceAlreadyDown,
    /// A transmit was attempted on a device that is down.
    DeviceDown,
    /// The payload does not fit the device's MTU.
    PacketTooLong,
    /// A receive was attempted on an empty loopback queue.
    QueueEmpty,
    /// An Ethernet frame carries an EtherType this stack does not know.
    UnknownEtherType,
    /// A buffer is too short to hold the header being parsed.
    FrameTooShort,
    /// An Ethernet frame is addressed neither to the device nor to broadcast.
    WrongDestination,
    /// An ARP datagram is not Ethernet/IPv4 with 6-byte and 4-byte addresses.
    UnsupportedArp,
    /// ARP resolution was attempted on a device that is not Ethernet.
    UnsupportedDevice,
    /// A device has no interface of the requested family.
    InterfaceNotFound,
    /// No route matches the destination address.
    NoRoute,
    /// An interface's device reference no longer leads to a device.
    DeadDevice,
    /// The source address is unusable for this send.
    InvalidSource,
    /// An IPv4 header's version field is not 4.
    InvalidVersion,
    /// An IPv4 header length is below the 20-byte minimum.
    HeaderTooShort,
    /// An IPv4 header length is at or above the 60-byte option maximum.
    HeaderTooLong,
    /// An IPv4 packet is fragmented, which this stack rejects.
    Fragmented,
    /// A checksum did not verify.
    InvalidChecksum,
    /// A captured packet is shorter than its header says it should be.
    TruncatedPacket,
    /// A protocol number this stack does not know.
    UnknownProtocol,
    /// A length field disagrees with the data it describes.
    InvalidLength,
    /// No UDP bind slot matches the destination endpoint.
    NoPcb,
}

} // verus!
