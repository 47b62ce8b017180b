use sleep_manager::interface::{
    entry_to_string, ip_text, make_entry, make_header, make_table, status_text,
};
use sleep_manager::management::{
    add_pc, exit_hostname, exit_packet, remove_pc, wakeup_decision, WakeDecision,
};
use sleep_manager::packets::{make_header as packet_header, make_wakeup_packet, PacketType};
use sleep_manager::pcinfo::{PCInfo, PCStatus};
use sleep_manager::replication::UpdateType;
use sleep_manager::signals::Signals;
use sleep_manager::table::NodeTable;

fn rec(name: &str, last: u8, status: PCStatus, manager: bool) -> PCInfo {
    PCInfo::new(name.to_string(), [0x0A, 0xB0, 0, 0, 0x1F, last], [192, 168, 10, last], status, manager)
}

#[test]
fn new_member_is_stored_and_replicated() {
    let mut store = NodeTable::new();
    let mut s = Signals::new(true);
    let (kind, pc) = add_pc(&mut store, &mut s, rec("n", 1, PCStatus::Online, false));
    assert_eq!(kind, UpdateType::Add);
    assert_eq!(pc.get_name(), "n");
    assert_eq!(store.len(), 1);
    assert!(s.has_update());
}

#[test]
fn departing_member_is_removed() {
    let mut store = NodeTable::new();
    let mut s = Signals::new(true);
    store.insert(rec("n", 1, PCStatus::Online, false));
    assert!(remove_pc(&mut store, &mut s, &"x".to_string()).is_none());
    assert!(!s.has_update());
    let (kind, pc) = remove_pc(&mut store, &mut s, &"n".to_string()).unwrap();
    assert_eq!(kind, UpdateType::Remove);
    assert_eq!(pc.get_name(), "n");
    assert!(store.is_empty());
    assert!(s.has_update());
}

#[test]
fn wakeup_only_for_sleeping_members() {
    let mut store = NodeTable::new();
    store.insert(rec("up", 1, PCStatus::Online, false));
    store.insert(rec("down", 2, PCStatus::Offline, false));
    assert!(matches!(wakeup_decision(&store, &"up".to_string()), WakeDecision::NotSleeping));
    assert!(matches!(wakeup_decision(&store, &"nobody".to_string()), WakeDecision::NotFound));
    match wakeup_decision(&store, &"down".to_string()) {
        WakeDecision::Send(frame) => {
            assert_eq!(frame, make_wakeup_packet(&[0x0A, 0xB0, 0, 0, 0x1F, 2]))
        }
        _ => panic!("expected a frame"),
    }
}

#[test]
fn exit_notice_hostname() {
    assert_eq!(exit_packet(), packet_header(PacketType::SsePacket, 0).to_vec());
    assert_eq!(exit_hostname(&exit_packet()), Some(String::new()));
    let mut p = packet_header(PacketType::SsePacket, 0).to_vec();
    p.extend_from_slice(b"host\xE9");
    assert_eq!(exit_hostname(&p), Some("host\u{e9}".to_string()));
    assert_eq!(exit_hostname(&packet_header(PacketType::SsrPacket, 0)), None);
}

#[test]
fn entry_columns_are_padded() {
    let e = make_entry("h", "m", "i", "s");
    assert_eq!(e, format!("{:<20} {:<21} {:<17} {:<8}\n", "h", "m", "i", "s"));
    let long = "a-very-long-hostname-indeed";
    assert_eq!(make_entry(long, "", "", ""), format!("{:<20} {:<21} {:<17} {:<8}\n", long, "", "", ""));
    assert_eq!(make_entry("é", "", "", "").chars().count(), 20 + 1 + 21 + 1 + 17 + 1 + 8 + 1);
}

#[test]
fn heading_marks_manager() {
    assert_eq!(
        make_header(true),
        format!("{:<20} {:<21} {:<17} {:<8}\n", "Hostname *", "MAC Address", "IPv4 Address", "Status")
    );
    assert!(make_header(false).starts_with("Hostname            "));
}

#[test]
fn texts_of_fields() {
    assert_eq!(ip_text(&[192, 168, 0, 7]), "192.168.0.7");
    assert_eq!(ip_text(&[0, 10, 255, 99]), "0.10.255.99");
    assert_eq!(status_text(&PCStatus::Online), "Online");
    assert_eq!(status_text(&PCStatus::Offline), "Offline");
}

#[test]
fn record_line_and_table() {
    let m = rec("boss", 3, PCStatus::Online, true);
    let line = entry_to_string(&m);
    assert_eq!(
        line,
        format!("{:<20} {:<21} {:<17} {:<8}\n", "boss *", "0A:B0:00:00:1F:03", "192.168.10.3", "Online")
    );
    let mut store = NodeTable::new();
    store.insert(m);
    store.insert(rec("f", 4, PCStatus::Offline, false));
    let t = make_table(&store, false);
    assert_eq!(t.lines().count(), 3);
    assert!(t.ends_with(&format!("{:<20} {:<21} {:<17} {:<8}\n", "f", "0A:B0:00:00:1F:04", "192.168.10.4", "Offline")));
}

#[test]
fn empty_table_text_is_heading_only() {
    let t = NodeTable::new();
    assert_eq!(make_table(&t, true), make_header(true));
}
