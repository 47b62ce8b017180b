//! Discovery: a follower broadcasts a seek datagram with its hardware address
//! and hostname until the manager acknowledges it; the manager records every
//! seeker and acknowledges it.

use vstd::prelude::*;
use vstd::utf8::{decode_utf8, encode_utf8, valid_utf8};
use crate::packets::{
    get_payload_typed, header_bytes, header_vec, packet_type_of, payload_of, swap_packet_type,
    PacketType, PACKET_TYPE_INDEX,
};
use crate::pcinfo::{text_from_range, NodeView, PCInfo, PCStatus};
use crate::signals::{Signals, SignalsView};
use crate::wire::push_all;

verus! {

/// Size of a hardware address.
pub const MAC_SIZE: usize = 6;

/// The hostname and hardware address that a discovery datagram of type `t`
/// carries: the payload holds the address, then the hostname in UTF-8. A
/// datagram whose payload is too short or whose hostname is not UTF-8 carries
/// none.
pub open spec fn identity_of(p: Seq<u8>, t: PacketType) -> Option<(Seq<char>, Seq<u8>)> {
    if packet_type_of(p) != Some(t) {
        None
    } else {
        match payload_of(p) {
            None => None,
            Some(pl) => if pl.len() < MAC_SIZE {
                None
            } else {
                let name_bytes = pl.subrange(MAC_SIZE as int, pl.len() as int);
                if valid_utf8(name_bytes) {
                    Some((decode_utf8(name_bytes), pl.subrange(0, MAC_SIZE as int)))
                } else {
                    None
                }
            },
        }
    }
}

/// The seek datagram of a node: the header, then its hardware address, then
/// its hostname.
pub open spec fn seek_bytes(mac: Seq<u8>, name: Seq<char>) -> Seq<u8> {
    header_bytes(PacketType::SsdPacket, (MAC_SIZE + encode_utf8(name).len()) as nat) + mac + encode_utf8(
        name,
    )
}

/// The hostname and hardware address carried by the first `amt` bytes of
/// `buf`, when they form a well-formed discovery datagram of the given type.
pub fn from_buffer(buf: &[u8], amt: usize, packet_type: PacketType) -> (r: Option<(String, [u8; 6])>)
    requires
        amt <= buf@.len(),
    ensures
        r is Some <==> identity_of(buf@.subrange(0, amt as int), packet_type) is Some,
        r is Some ==> identity_of(buf@.subrange(0, amt as int), packet_type) == Some(
            (r->Some_0.0@, r->Some_0.1@),
        ),
{
    let packet = vstd::slice::slice_subrange(buf, 0, amt);
    let msg = match get_payload_typed(packet, packet_type) {
        Ok(msg) => msg,
        Err(_) => return None,
    };
    if msg.len() < MAC_SIZE {
        return None;
    }
    let hostname = match text_from_range(msg.as_slice(), MAC_SIZE, msg.len()) {
        Some(name) => name,
        None => return None,
    };
    let mac: [u8; 6] = [msg[0], msg[1], msg[2], msg[3], msg[4], msg[5]];
    assert(mac@ =~= msg@.subrange(0, MAC_SIZE as int));
    Some((hostname, mac))
}

/// The seek datagram that a node broadcasts.
pub fn make_seek_packet(mac: &[u8; 6], name: &String) -> (r: Vec<u8>)
    ensures
        r@ == seek_bytes(mac@, name@),
{
    let name_bytes = name.as_str().as_bytes();
    let length = name_bytes.len() % 65536 + MAC_SIZE;
    let mut packet = header_vec(PacketType::SsdPacket, length);
    assert(header_bytes(PacketType::SsdPacket, length as nat) =~= header_bytes(
        PacketType::SsdPacket,
        (MAC_SIZE + encode_utf8(name@).len()) as nat,
    ));
    push_all(&mut packet, mac.as_slice());
    push_all(&mut packet, name_bytes);
    assert(packet@ =~= seek_bytes(mac@, name@));
    packet
}

/// The acknowledgement a manager sends back: its own seek datagram with the
/// acknowledgement type.
pub fn make_ack_packet(seek: &Vec<u8>) -> (r: Vec<u8>)
    requires
        seek@.len() > PACKET_TYPE_INDEX,
    ensures
        r@ == seek@.update(PACKET_TYPE_INDEX as int, crate::packets::type_code(PacketType::SsdAckPacket)),
{
    swap_packet_type(seek, PacketType::SsdAckPacket)
}

/// Follower side: the record of the manager that an acknowledgement from
/// `src_ip` announces, online and flagged as manager.
pub fn find_manager(packet: &[u8], src_ip: [u8; 4]) -> (r: Option<PCInfo>)
    ensures
        r is Some <==> identity_of(packet@, PacketType::SsdAckPacket) is Some,
        r is Some ==> ({
            let (name, mac) = identity_of(packet@, PacketType::SsdAckPacket)->Some_0;
            r->Some_0@ == NodeView { name, mac, ip: src_ip@, status: PCStatus::Online, is_manager: true }
        }),
{
    assert(packet@.subrange(0, packet@.len() as int) =~= packet@);
    match from_buffer(packet, packet.len(), PacketType::SsdAckPacket) {
        Some((hostname, mac)) => Some(PCInfo::new(hostname, mac, src_ip, PCStatus::Online, true)),
        None => None,
    }
}

/// Manager side: the record of a node that a seek datagram from `src_ip`
/// announces, online and not manager; nothing for a datagram that is not a
/// seek or that carries the manager's own hostname.
pub fn listen_for_clients(packet: &[u8], src_ip: [u8; 4], our_hostname: &String) -> (r: Option<PCInfo>)
    ensures
        r is Some <==> identity_of(packet@, PacketType::SsdPacket) is Some
            && identity_of(packet@, PacketType::SsdPacket)->Some_0.0 != our_hostname@,
        r is Some ==> ({
            let (name, mac) = identity_of(packet@, PacketType::SsdPacket)->Some_0;
            r->Some_0@ == NodeView { name, mac, ip: src_ip@, status: PCStatus::Online, is_manager: false }
        }),
{
    assert(packet@.subrange(0, packet@.len() as int) =~= packet@);
    match from_buffer(packet, packet.len(), PacketType::SsdPacket) {
        Some((hostname, mac)) => {
            if hostname == *our_hostname {
                None
            } else {
                Some(PCInfo::new(hostname, mac, src_ip, PCStatus::Online, false))
            }
        },
        None => None,
    }
}

/// What the discovery service does in one pass of its loop.
#[derive(Debug, PartialEq, Eq, Structural, Clone, Copy)]
pub enum DiscoveryDuty {
    /// Just became manager: drop stale datagrams, then listen for seekers.
    DrainThenListen,
    /// As manager: listen for seekers.
    ListenForClients,
    /// No manager known: listen for an acknowledgement, and seek unless an
    /// election is under way.
    FindManager,
    /// A manager is known: nothing to do.
    Idle,
}

/// The duty of the discovery service, given the role it saw on its last pass.
pub open spec fn discovery_duty_of(was_manager: bool, s: SignalsView) -> DiscoveryDuty {
    if s.is_manager {
        if !was_manager {
            DiscoveryDuty::DrainThenListen
        } else {
            DiscoveryDuty::ListenForClients
        }
    } else if !s.manager_found {
        DiscoveryDuty::FindManager
    } else {
        DiscoveryDuty::Idle
    }
}

/// The duty of the discovery service, given the role it saw on its last pass.
pub fn discovery_duty(was_manager: bool, signals: &Signals) -> (r: DiscoveryDuty)
    ensures
        r == discovery_duty_of(was_manager, signals@),
{
    if signals.is_manager() {
        if !was_manager {
            DiscoveryDuty::DrainThenListen
        } else {
            DiscoveryDuty::ListenForClients
        }
    } else if !signals.manager_found() {
        DiscoveryDuty::FindManager
    } else {
        DiscoveryDuty::Idle
    }
}

/// Follower side, after listening for an acknowledgement: a found manager is
/// recorded in the flags; otherwise the node seeks again unless it is
/// electing. Returns whether to broadcast the seek datagram.
pub fn after_find(signals: &mut Signals, found: bool) -> (r: bool)
    ensures
        r == (!found && !old(signals)@.electing),
        final(signals)@ == (SignalsView {
            manager_found: found || old(signals)@.manager_found,
            ..old(signals)@
        }),
{
    if found {
        signals.found_manager();
        false
    } else {
        !signals.electing()
    }
}

} // verus!
