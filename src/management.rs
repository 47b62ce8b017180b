//! Membership bookkeeping on the live store: new members, status changes,
//! departures and wake-up requests, each handed on to replication as a change.

use vstd::prelude::*;
use crate::packets::{
    check_packet, header_bytes, header_vec, make_wakeup_packet, packet_type_of, wakeup_frame,
    PacketType, HEADER_SIZE,
};
use crate::pcinfo::{PCInfo, PCStatus};
use crate::replication::UpdateType;
use crate::signals::{Signals, SignalsView};
use crate::table::{has_name, table_insert, table_remove, table_set_status, NodeTable};
use crate::text::push_char;

verus! {

/// Records a member announced by discovery: it goes into the live store
/// under its hostname and the membership-changed notice is raised. Returns
/// the change to replicate.
pub fn add_pc(store: &mut NodeTable, signals: &mut Signals, pc: PCInfo) -> (r: (UpdateType, PCInfo))
    requires
        old(store).wf(),
    ensures
        final(store).wf(),
        final(store)@ == table_insert(old(store)@, pc@),
        final(signals)@ == (SignalsView { update: true, ..old(signals)@ }),
        r.0 == UpdateType::Add,
        r.1@ == pc@,
{
    let copy = pc.clone();
    store.insert(pc);
    signals.send_update();
    (UpdateType::Add, copy)
}

/// Applies a status reported by failure detection to the member's record and
/// raises the membership-changed notice. Returns the change to replicate, the
/// record as it now stands; nothing when no member has that hostname.
pub fn update_status(store: &mut NodeTable, signals: &mut Signals, name: &String, status: PCStatus) -> (r:
    Option<(UpdateType, PCInfo)>)
    requires
        old(store).wf(),
    ensures
        final(store).wf(),
        final(store)@ == table_set_status(old(store)@, name@, status),
        r is Some <==> has_name(old(store)@, name@),
        r is Some ==> r->Some_0.0 == UpdateType::Change && r->Some_0.1@.name == name@
            && r->Some_0.1@.status == status && final(store)@.contains(r->Some_0.1@),
        final(signals)@ == (SignalsView {
            update: old(signals)@.update || has_name(old(store)@, name@),
            ..old(signals)@
        }),
{
    match store.find(name) {
        Some(i) => {
            store.set_status(name, status);
            signals.send_update();
            let pc = store.get_index(i).clone();
            assert(store@.contains(store@[i as int]));
            Some((UpdateType::Change, pc))
        },
        None => {
            store.set_status(name, status);
            None
        },
    }
}

/// Removes a member that announced its exit and raises the
/// membership-changed notice. Returns the change to replicate; nothing when no
/// member has that hostname.
pub fn remove_pc(store: &mut NodeTable, signals: &mut Signals, name: &String) -> (r: Option<(UpdateType, PCInfo)>)
    requires
        old(store).wf(),
    ensures
        final(store).wf(),
        final(store)@ == table_remove(old(store)@, name@),
        r is Some <==> has_name(old(store)@, name@),
        r is Some ==> r->Some_0.0 == UpdateType::Remove && old(store)@.contains(r->Some_0.1@)
            && r->Some_0.1@.name == name@,
        final(signals)@ == (SignalsView {
            update: old(signals)@.update || has_name(old(store)@, name@),
            ..old(signals)@
        }),
{
    match store.find(name) {
        Some(i) => {
            let pc = store.get_index(i).clone();
            assert(old(store)@.contains(pc@));
            store.remove(name);
            signals.send_update();
            Some((UpdateType::Remove, pc))
        },
        None => {
            store.remove(name);
            None
        },
    }
}

/// What a wake-up request for a hostname comes to.
#[derive(Debug)]
pub enum WakeDecision {
    /// The member sleeps: send this wake-on-LAN frame.
    Send(Vec<u8>),
    /// The member is online already.
    NotSleeping,
    /// No member has that hostname.
    NotFound,
}

/// What a wake-up request for `hostname` comes to: the wake-on-LAN frame of
/// its hardware address when it is offline.
pub fn wakeup_decision(store: &NodeTable, hostname: &String) -> (r: WakeDecision)
    requires
        store.wf(),
    ensures
        !has_name(store@, hostname@) <==> r is NotFound,
        r is Send ==> exists|i: int|
            0 <= i < store@.len() && store@[i].name == hostname@ && store@[i].status
                == PCStatus::Offline && r->Send_0@ == wakeup_frame(store@[i].mac),
        r is NotSleeping ==> exists|i: int|
            0 <= i < store@.len() && store@[i].name == hostname@ && store@[i].status
                == PCStatus::Online,
{
    match store.find(hostname) {
        Some(i) => {
            let pc = store.get_index(i);
            if *pc.get_status() == PCStatus::Offline {
                WakeDecision::Send(make_wakeup_packet(pc.get_mac()))
            } else {
                WakeDecision::NotSleeping
            }
        },
        None => WakeDecision::NotFound,
    }
}

/// The exit notice a node broadcasts when it stops.
pub fn exit_packet() -> (r: Vec<u8>)
    ensures
        r@ == header_bytes(PacketType::SsePacket, 0),
{
    header_vec(PacketType::SsePacket, 0)
}

/// The hostname in an exit notice: every byte after the header, each read as
/// the character of that code.
pub open spec fn exit_name_of(p: Seq<u8>) -> Option<Seq<char>> {
    if packet_type_of(p) != Some(PacketType::SsePacket) {
        None
    } else {
        Some(p.subrange(HEADER_SIZE as int, p.len() as int).map_values(|b: u8| b as char))
    }
}

/// The hostname in an exit notice; nothing for another datagram.
pub fn exit_hostname(packet: &[u8]) -> (r: Option<String>)
    ensures
        r is Some <==> exit_name_of(packet@) is Some,
        r is Some ==> r->Some_0@ == exit_name_of(packet@)->Some_0,
{
    if check_packet(packet, PacketType::SsePacket).is_err() {
        return None;
    }
    let mut name = String::new();
    let mut i: usize = HEADER_SIZE;
    while i < packet.len()
        invariant
            HEADER_SIZE <= i <= packet@.len(),
            name@ =~= packet@.subrange(HEADER_SIZE as int, i as int).map_values(|b: u8| b as char),
        decreases packet@.len() - i,
    {
        push_char(&mut name, packet[i] as char);
        i = i + 1;
    }
    Some(name)
}

} // verus!
