use sleep_manager::discovery::{
    after_find, discovery_duty, find_manager, from_buffer, listen_for_clients, make_ack_packet,
    make_seek_packet, DiscoveryDuty,
};
use sleep_manager::packets::{make_header, PacketType};
use sleep_manager::pcinfo::PCStatus;
use sleep_manager::signals::Signals;

const MAC: [u8; 6] = [0x10, 0x20, 0x30, 0x40, 0x50, 0x60];

#[test]
fn seek_packet_layout() {
    let p = make_seek_packet(&MAC, &"node1".to_string());
    let mut expected = make_header(PacketType::SsdPacket, 11).to_vec();
    expected.extend_from_slice(&MAC);
    expected.extend_from_slice(b"node1");
    assert_eq!(p, expected);
    let ack = make_ack_packet(&p);
    assert_eq!(ack[3], 0x06);
    assert_eq!(&ack[4..], &p[4..]);
}

#[test]
fn identity_read_back() {
    let p = make_seek_packet(&MAC, &"node1".to_string());
    let (name, mac) = from_buffer(&p, p.len(), PacketType::SsdPacket).unwrap();
    assert_eq!(name, "node1");
    assert_eq!(mac, MAC);
    assert!(from_buffer(&p, p.len(), PacketType::SsdAckPacket).is_none());
    assert!(from_buffer(&p, 5, PacketType::SsdPacket).is_none());
}

#[test]
fn invalid_utf8_name_is_dropped() {
    let mut p = make_header(PacketType::SsdPacket, 8).to_vec();
    p.extend_from_slice(&MAC);
    p.extend_from_slice(&[0xFF, 0xFE]);
    assert!(from_buffer(&p, p.len(), PacketType::SsdPacket).is_none());
    assert!(listen_for_clients(&p, [10, 0, 0, 9], &"boss".to_string()).is_none());
    let ack = make_ack_packet(&p);
    assert!(find_manager(&ack, [10, 0, 0, 1]).is_none());
}

#[test]
fn short_payload_is_dropped() {
    let mut p = make_header(PacketType::SsdPacket, 3).to_vec();
    p.extend_from_slice(&[1, 2, 3]);
    assert!(from_buffer(&p, p.len(), PacketType::SsdPacket).is_none());
}

#[test]
fn follower_records_acknowledging_manager() {
    let ack = make_ack_packet(&make_seek_packet(&MAC, &"boss".to_string()));
    let m = find_manager(&ack, [10, 0, 0, 1]).unwrap();
    assert_eq!(m.get_name(), "boss");
    assert_eq!(*m.get_ip(), [10, 0, 0, 1]);
    assert_eq!(*m.get_status(), PCStatus::Online);
    assert!(m.is_manager());
    assert!(find_manager(&make_seek_packet(&MAC, &"boss".to_string()), [10, 0, 0, 1]).is_none());
}

#[test]
fn manager_records_seekers_but_not_itself() {
    let seek = make_seek_packet(&MAC, &"newbie".to_string());
    let c = listen_for_clients(&seek, [10, 0, 0, 9], &"boss".to_string()).unwrap();
    assert_eq!(c.get_name(), "newbie");
    assert!(!c.is_manager());
    assert_eq!(*c.get_mac(), MAC);
    assert!(listen_for_clients(&seek, [10, 0, 0, 9], &"newbie".to_string()).is_none());
}

#[test]
fn discovery_duties() {
    let mut s = Signals::new(false);
    assert_eq!(discovery_duty(false, &s), DiscoveryDuty::FindManager);
    assert!(!after_find(&mut s, false));
    s.end_election();
    assert!(after_find(&mut s, false));
    assert!(!after_find(&mut s, true));
    assert!(s.manager_found());
    assert_eq!(discovery_duty(false, &s), DiscoveryDuty::Idle);
    s.i_am_manager();
    assert_eq!(discovery_duty(false, &s), DiscoveryDuty::DrainThenListen);
    assert_eq!(discovery_duty(true, &s), DiscoveryDuty::ListenForClients);
}
