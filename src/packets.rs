//! Datagram framing: a ten-byte header (magic, type, payload length) in front
//! of the payload.

use vstd::prelude::*;
use crate::wire::push_all;

verus! {

/// Size of the receive buffer that every service reads datagrams into.
pub const BUFFER_SIZE: usize = 1024;

/// Size of the fixed header in front of every payload.
pub const HEADER_SIZE: usize = 10;

/// First header byte of the magic constant 0xCA31.
pub const MAGIC_HIGH: u8 = 0xCA;

/// Second header byte of the magic constant 0xCA31.
pub const MAGIC_LOW: u8 = 0x31;

/// Header position of the packet type byte.
pub const PACKET_TYPE_INDEX: usize = 3;

/// Header position of the big-endian payload length.
pub const LENGTH_INDEX: usize = 6;

/// The kinds of datagrams the services exchange.
#[derive(Debug, PartialEq, Eq, Structural, Clone, Copy)]
pub enum PacketType {
    /// Status request, sent by the manager to each member.
    SsrPacket,
    /// Answer to a status request.
    SsrAckPacket,
    /// Exit notice.
    SsePacket,
    /// Discovery: a node seeking the manager.
    SsdPacket,
    /// Discovery: the manager's acknowledgement.
    SsdAckPacket,
    /// Replication snapshot.
    SsrepPacket,
    /// Election candidacy, carrying a token.
    SselPacket,
    /// Election finished: a manager exists.
    SselFinPacket,
    /// Election: a greater token exists, back off.
    SselGtPacket,
}

/// The wire code of each packet type.
pub open spec fn type_code(t: PacketType) -> u8 {
    match t {
        PacketType::SsrPacket => 0x01,
        PacketType::SsrAckPacket => 0x02,
        PacketType::SsePacket => 0x04,
        PacketType::SsdPacket => 0x05,
        PacketType::SsdAckPacket => 0x06,
        PacketType::SsrepPacket => 0x07,
        PacketType::SselPacket => 0x08,
        PacketType::SselFinPacket => 0x09,
        PacketType::SselGtPacket => 0x0A,
    }
}

/// The packet type a wire code stands for, if any.
pub open spec fn type_of_code(b: u8) -> Option<PacketType> {
    if b == 0x01 {
        Some(PacketType::SsrPacket)
    } else if b == 0x02 {
        Some(PacketType::SsrAckPacket)
    } else if b == 0x04 {
        Some(PacketType::SsePacket)
    } else if b == 0x05 {
        Some(PacketType::SsdPacket)
    } else if b == 0x06 {
        Some(PacketType::SsdAckPacket)
    } else if b == 0x07 {
        Some(PacketType::SsrepPacket)
    } else if b == 0x08 {
        Some(PacketType::SselPacket)
    } else if b == 0x09 {
        Some(PacketType::SselFinPacket)
    } else if b == 0x0A {
        Some(PacketType::SselGtPacket)
    } else {
        None
    }
}

/// The ten header bytes for a payload of `length` bytes; the length field
/// keeps the low sixteen bits.
pub open spec fn header_bytes(t: PacketType, length: nat) -> Seq<u8> {
    seq![
        MAGIC_HIGH,
        MAGIC_LOW,
        0u8,
        type_code(t),
        0u8,
        0u8,
        ((length % 65536) / 256) as u8,
        (length % 256) as u8,
        0u8,
        0u8,
    ]
}

/// The payload length that a header declares.
pub open spec fn declared_length(p: Seq<u8>) -> nat
    recommends
        p.len() >= LENGTH_INDEX + 2,
{
    (p[LENGTH_INDEX as int] as nat) * 256 + (p[LENGTH_INDEX + 1] as nat)
}

/// The type of a datagram: present when it holds a whole header with the magic
/// constant and a known type code.
pub open spec fn packet_type_of(p: Seq<u8>) -> Option<PacketType> {
    if p.len() < HEADER_SIZE || p[0] != MAGIC_HIGH || p[1] != MAGIC_LOW {
        None
    } else {
        type_of_code(p[PACKET_TYPE_INDEX as int])
    }
}

/// The payload of a datagram: present when the datagram holds a header and
/// the whole payload it declares.
pub open spec fn payload_of(p: Seq<u8>) -> Option<Seq<u8>> {
    if p.len() < HEADER_SIZE || p.len() < HEADER_SIZE + declared_length(p) {
        None
    } else {
        Some(p.subrange(HEADER_SIZE as int, HEADER_SIZE + declared_length(p)))
    }
}

impl PacketType {
    /// The wire code of this packet type.
    pub fn code(&self) -> (r: u8)
        ensures
            r == type_code(*self),
    {
        match self {
            PacketType::SsrPacket => 0x01,
            PacketType::SsrAckPacket => 0x02,
            PacketType::SsePacket => 0x04,
            PacketType::SsdPacket => 0x05,
            PacketType::SsdAckPacket => 0x06,
            PacketType::SsrepPacket => 0x07,
            PacketType::SselPacket => 0x08,
            PacketType::SselFinPacket => 0x09,
            PacketType::SselGtPacket => 0x0A,
        }
    }

    /// The packet type of a wire code; `Err` for a code that names none.
    pub fn try_from(value: u8) -> (r: Result<PacketType, ()>)
        ensures
            r is Ok <==> type_of_code(value) is Some,
            r is Ok ==> type_of_code(value) == Some(r->Ok_0),
    {
        if value == 0x01 {
            Ok(PacketType::SsrPacket)
        } else if value == 0x02 {
            Ok(PacketType::SsrAckPacket)
        } else if value == 0x04 {
            Ok(PacketType::SsePacket)
        } else if value == 0x05 {
            Ok(PacketType::SsdPacket)
        } else if value == 0x06 {
            Ok(PacketType::SsdAckPacket)
        } else if value == 0x07 {
            Ok(PacketType::SsrepPacket)
        } else if value == 0x08 {
            Ok(PacketType::SselPacket)
        } else if value == 0x09 {
            Ok(PacketType::SselFinPacket)
        } else if value == 0x0A {
            Ok(PacketType::SselGtPacket)
        } else {
            Err(())
        }
    }
}

/// Every code round-trips through its packet type.
pub proof fn lemma_type_code_round_trip(t: PacketType)
    ensures
        type_of_code(type_code(t)) == Some(t),
{
}

/// The header for a payload of `length` bytes.
pub fn make_header(packet_type: PacketType, length: usize) -> (r: [u8; HEADER_SIZE])
    ensures
        r@ == header_bytes(packet_type, length as nat),
{
    let short: u32 = (length % 65536) as u32;
    let high: u8 = (short / 256) as u8;
    let low: u8 = (short % 256) as u8;
    let r = [MAGIC_HIGH, MAGIC_LOW, 0, packet_type.code(), 0, 0, high, low, 0, 0];
    assert(r@ =~= header_bytes(packet_type, length as nat));
    r
}

/// The header for a payload of `length` bytes, as a vector.
pub fn header_vec(packet_type: PacketType, length: usize) -> (r: Vec<u8>)
    ensures
        r@ == header_bytes(packet_type, length as nat),
{
    let header = make_header(packet_type, length);
    let mut r: Vec<u8> = Vec::new();
    push_all(&mut r, header.as_slice());
    assert(r@ =~= header@);
    r
}

/// A copy of `packet` with its type byte replaced.
pub fn swap_packet_type(packet: &Vec<u8>, packet_type: PacketType) -> (r: Vec<u8>)
    requires
        packet.len() > PACKET_TYPE_INDEX,
    ensures
        r@ == packet@.update(PACKET_TYPE_INDEX as int, type_code(packet_type)),
{
    let mut new_packet = packet.clone();
    new_packet.set(PACKET_TYPE_INDEX, packet_type.code());
    new_packet
}

/// The type of a datagram; `Err` for one without a whole header, without the
/// magic constant or with an unknown type code.
pub fn get_packet_type(packet: &[u8]) -> (r: Result<PacketType, ()>)
    ensures
        r is Ok <==> packet_type_of(packet@) is Some,
        r is Ok ==> packet_type_of(packet@) == Some(r->Ok_0),
{
    if packet.len() < HEADER_SIZE {
        return Err(());
    }
    if packet[0] != MAGIC_HIGH || packet[1] != MAGIC_LOW {
        Err(())
    } else {
        PacketType::try_from(packet[PACKET_TYPE_INDEX])
    }
}

/// The payload length that the header of `packet` declares.
pub fn get_packet_length(packet: &[u8]) -> (r: usize)
    requires
        packet.len() >= LENGTH_INDEX + 2,
    ensures
        r == declared_length(packet@),
{
    (packet[LENGTH_INDEX] as usize) * 256 + (packet[LENGTH_INDEX + 1] as usize)
}

/// The declared payload length of a datagram of the expected type; `Err` when
/// the datagram is not of that type.
pub fn check_packet(packet: &[u8], expected_packet_type: PacketType) -> (r: Result<usize, ()>)
    ensures
        r is Ok <==> packet_type_of(packet@) == Some(expected_packet_type),
        r is Ok ==> r->Ok_0 == declared_length(packet@),
{
    let packet_type = get_packet_type(packet)?;
    if packet_type != expected_packet_type {
        return Err(());
    }
    Ok(get_packet_length(packet))
}

/// The payload of a datagram; `Err` when the datagram is shorter than its
/// header and the payload that the header declares.
pub fn get_payload(packet: &[u8]) -> (r: Result<Vec<u8>, ()>)
    ensures
        r is Ok <==> payload_of(packet@) is Some,
        r is Ok ==> payload_of(packet@) == Some(r->Ok_0@),
{
    if packet.len() < HEADER_SIZE {
        return Err(());
    }
    let length = get_packet_length(packet);
    if packet.len() - HEADER_SIZE < length {
        return Err(());
    }
    let mut payload: Vec<u8> = Vec::new();
    let mut i: usize = HEADER_SIZE;
    while i < HEADER_SIZE + length
        invariant
            HEADER_SIZE <= i <= HEADER_SIZE + length <= packet.len(),
            length == declared_length(packet@),
            payload@ =~= packet@.subrange(HEADER_SIZE as int, i as int),
        decreases HEADER_SIZE + length - i,
    {
        payload.push(packet[i]);
        i = i + 1;
    }
    Ok(payload)
}

/// The payload of a datagram of the expected type; `Err` when the type does
/// not match or the payload is cut short.
pub fn get_payload_typed(packet: &[u8], expected_packet_type: PacketType) -> (r: Result<Vec<u8>, ()>)
    ensures
        r is Ok <==> packet_type_of(packet@) == Some(expected_packet_type) && payload_of(packet@) is Some,
        r is Ok ==> payload_of(packet@) == Some(r->Ok_0@),
{
    check_packet(packet, expected_packet_type)?;
    get_payload(packet)
}

/// The wake-on-LAN frame: six 0xFF bytes, then the hardware address sixteen times.
pub open spec fn wakeup_frame(mac: Seq<u8>) -> Seq<u8> {
    Seq::new(6, |i: int| 0xFFu8) + Seq::new(96, |i: int| mac[i % 6])
}

/// The wake-on-LAN frame for the hardware address `mac`.
pub fn make_wakeup_packet(mac: &[u8; 6]) -> (r: Vec<u8>)
    ensures
        r@ == wakeup_frame(mac@),
{
    let mut r: Vec<u8> = Vec::new();
    let mut i: usize = 0;
    while i < 6
        invariant
            i <= 6,
            r@ =~= Seq::new(i as nat, |j: int| 0xFFu8),
        decreases 6 - i,
    {
        r.push(0xFF);
        i = i + 1;
    }
    let mut k: usize = 0;
    while k < 96
        invariant
            k <= 96,
            mac@.len() == 6,
            r@ =~= Seq::new(6, |j: int| 0xFFu8) + Seq::new(k as nat, |j: int| mac@[j % 6]),
        decreases 96 - k,
    {
        r.push(mac[k % 6]);
        k = k + 1;
    }
    r
}

} // verus!
