use sleep_manager::packets::{
    check_packet, get_packet_length, get_packet_type, get_payload, get_payload_typed,
    make_header, make_wakeup_packet, swap_packet_type, PacketType, HEADER_SIZE,
};

#[test]
fn header_layout_is_exact() {
    assert_eq!(
        make_header(PacketType::SsrepPacket, 3),
        [0xCA, 0x31, 0, 0x07, 0, 0, 0, 3, 0, 0]
    );
    assert_eq!(
        make_header(PacketType::SselGtPacket, 300),
        [0xCA, 0x31, 0, 0x0A, 0, 0, 1, 44, 0, 0]
    );
}

#[test]
fn header_length_keeps_low_sixteen_bits() {
    let h = make_header(PacketType::SsdPacket, 70000);
    assert_eq!(h[6], 0x11);
    assert_eq!(h[7], 0x70);
}

#[test]
fn packet_type_codes_round_trip() {
    let all = [
        (PacketType::SsrPacket, 0x01u8),
        (PacketType::SsrAckPacket, 0x02),
        (PacketType::SsePacket, 0x04),
        (PacketType::SsdPacket, 0x05),
        (PacketType::SsdAckPacket, 0x06),
        (PacketType::SsrepPacket, 0x07),
        (PacketType::SselPacket, 0x08),
        (PacketType::SselFinPacket, 0x09),
        (PacketType::SselGtPacket, 0x0A),
    ];
    for (t, code) in all {
        assert_eq!(t.code(), code);
        assert_eq!(PacketType::try_from(code), Ok(t));
    }
    assert_eq!(PacketType::try_from(0x03), Err(()));
    assert_eq!(PacketType::try_from(0x00), Err(()));
    assert_eq!(PacketType::try_from(0x0B), Err(()));
}

#[test]
fn packet_type_is_read_from_header() {
    let h = make_header(PacketType::SselPacket, 0);
    assert_eq!(get_packet_type(&h), Ok(PacketType::SselPacket));
}

#[test]
fn bad_magic_is_rejected() {
    let mut h = make_header(PacketType::SselPacket, 0);
    h[1] = 0x32;
    assert_eq!(get_packet_type(&h), Err(()));
}

#[test]
fn unknown_type_is_rejected() {
    let mut h = make_header(PacketType::SselPacket, 0);
    h[3] = 0x03;
    assert_eq!(get_packet_type(&h), Err(()));
}

#[test]
fn short_datagram_is_rejected() {
    assert_eq!(get_packet_type(&[0xCA, 0x31, 0, 1]), Err(()));
    assert_eq!(get_packet_type(&[]), Err(()));
}

#[test]
fn length_and_check() {
    let h = make_header(PacketType::SsrAckPacket, 258);
    assert_eq!(get_packet_length(&h), 258);
    assert_eq!(check_packet(&h, PacketType::SsrAckPacket), Ok(258));
    assert_eq!(check_packet(&h, PacketType::SsrPacket), Err(()));
}

#[test]
fn payload_is_cut_to_declared_length() {
    let mut p = make_header(PacketType::SsePacket, 3).to_vec();
    p.extend_from_slice(&[1, 2, 3, 4, 5]);
    assert_eq!(get_payload(&p), Ok(vec![1, 2, 3]));
    assert_eq!(get_payload_typed(&p, PacketType::SsePacket), Ok(vec![1, 2, 3]));
    assert_eq!(get_payload_typed(&p, PacketType::SsdPacket), Err(()));
}

#[test]
fn truncated_payload_is_rejected() {
    let mut p = make_header(PacketType::SsePacket, 4).to_vec();
    p.extend_from_slice(&[1, 2, 3]);
    assert_eq!(get_payload(&p), Err(()));
    assert_eq!(p.len(), HEADER_SIZE + 3);
}

#[test]
fn swapping_type_changes_only_type_byte() {
    let mut p = make_header(PacketType::SsdPacket, 2).to_vec();
    p.extend_from_slice(&[9, 8]);
    let q = swap_packet_type(&p, PacketType::SsdAckPacket);
    assert_eq!(q[3], 0x06);
    assert_eq!(&q[..3], &p[..3]);
    assert_eq!(&q[4..], &p[4..]);
}

#[test]
fn wakeup_frame_repeats_address() {
    let mac = [0x01, 0x23, 0x45, 0x67, 0x89, 0xAB];
    let w = make_wakeup_packet(&mac);
    assert_eq!(w.len(), 102);
    assert_eq!(&w[..6], &[0xFF; 6]);
    for k in 0..16 {
        assert_eq!(&w[6 + 6 * k..12 + 6 * k], &mac);
    }
}
