use sleep_manager::packets::{make_header, PacketType};
use sleep_manager::pcinfo::{PCInfo, PCStatus};
use sleep_manager::replication::{
    apply_snapshot, apply_update, demote, make_snapshot, promote, receive_update,
    reconcile_role, replicate_update, serialize_pc_map, UpdateType,
};
use sleep_manager::signals::Signals;
use sleep_manager::table::NodeTable;

fn rec(name: &str, last: u8, manager: bool) -> PCInfo {
    PCInfo::new(name.to_string(), [2, 0, 0, 0, 0, last], [10, 0, 0, last], PCStatus::Online, manager)
}

fn names(t: &NodeTable) -> Vec<String> {
    (0..t.len()).map(|i| t.get_index(i).get_name().clone()).collect()
}

#[test]
fn update_type_codes() {
    assert_eq!(UpdateType::try_from(1), Ok(UpdateType::Add));
    assert_eq!(UpdateType::try_from(2), Ok(UpdateType::Remove));
    assert_eq!(UpdateType::try_from(3), Ok(UpdateType::Change));
    assert_eq!(UpdateType::try_from(4), Err(()));
}

#[test]
fn snapshot_layout() {
    let mut t = NodeTable::new();
    t.insert(rec("a", 1, false));
    t.insert(rec("b", 2, true));
    let p = make_snapshot(0x0A0B0C0D, &t);
    let mut expected = make_header(PacketType::SsrepPacket, 2).to_vec();
    expected.extend_from_slice(&[0x0A, 0x0B, 0x0C, 0x0D]);
    expected.extend_from_slice(&serialize_pc_map(&t));
    assert_eq!(p, expected);
    let mut body = rec("a", 1, false).to_bytes();
    body.extend_from_slice(&rec("b", 2, true).to_bytes());
    assert_eq!(serialize_pc_map(&t), body);
}

#[test]
fn snapshot_decodes_to_table() {
    let mut t = NodeTable::new();
    t.insert(rec("a", 1, false));
    t.insert(rec("b", 2, true));
    let (d, v) = receive_update(&make_snapshot(9, &t)).unwrap();
    assert_eq!(v, 9);
    assert_eq!(names(&d), vec!["a", "b"]);
    assert!(d.get_index(1).is_manager());
}

#[test]
fn snapshot_of_wrong_type_or_cut_short_is_dropped() {
    let mut t = NodeTable::new();
    t.insert(rec("a", 1, false));
    let p = make_snapshot(1, &t);
    assert!(receive_update(&p[..p.len() - 1]).is_err());
    assert!(receive_update(&p[..12]).is_err());
    let mut q = p.clone();
    q[3] = 0x05;
    assert!(receive_update(&q).is_err());
}

#[test]
fn snapshot_applied_twice_gives_same_table() {
    let mut manager_table = NodeTable::new();
    manager_table.insert(rec("a", 1, false));
    manager_table.insert(rec("b", 2, false));
    let p = make_snapshot(4, &manager_table);
    let mut backup = NodeTable::new();
    backup.insert(rec("stale", 9, false));
    let mut s = Signals::new(false);
    assert!(apply_snapshot(&mut backup, &mut s, &p));
    let first = names(&backup);
    let first_version = s.current_table_version();
    assert!(apply_snapshot(&mut backup, &mut s, &p));
    assert_eq!(names(&backup), first);
    assert_eq!(first, vec!["a", "b"]);
    assert_eq!(s.current_table_version(), first_version);
    assert_eq!(first_version, 4);
}

#[test]
fn older_snapshot_still_overwrites() {
    let mut t = NodeTable::new();
    t.insert(rec("a", 1, false));
    let mut backup = NodeTable::new();
    let mut s = Signals::new(false);
    s.overwrite_table_version(50);
    assert!(apply_snapshot(&mut backup, &mut s, &make_snapshot(3, &t)));
    assert_eq!(s.current_table_version(), 3);
}

#[test]
fn bad_snapshot_changes_nothing() {
    let mut backup = NodeTable::new();
    backup.insert(rec("keep", 1, false));
    let mut s = Signals::new(false);
    s.overwrite_table_version(8);
    assert!(!apply_snapshot(&mut backup, &mut s, &[0xCA, 0x31, 0, 7]));
    assert_eq!(names(&backup), vec!["keep"]);
    assert_eq!(s.current_table_version(), 8);
}

#[test]
fn promotion_reconciles_backup_into_store() {
    let mut backup = NodeTable::new();
    backup.insert(rec("A", 1, true));
    backup.insert(rec("B", 2, false));
    backup.insert(rec("C", 3, false));
    backup.insert(rec("self", 4, false));
    let mut store = NodeTable::new();
    store.insert(rec("A", 1, true));
    let mut s = Signals::new(false);
    promote(&mut backup, &"self".to_string(), &mut store, &mut s);
    assert_eq!(names(&store), vec!["A", "B", "C"]);
    for i in 0..store.len() {
        assert!(!store.get_index(i).is_manager());
    }
    assert!(!backup.get_index(0).is_manager());
    assert_eq!(backup.len(), 4);
    assert!(s.has_update());
}

#[test]
fn promotion_with_only_self_raises_nothing() {
    let mut backup = NodeTable::new();
    backup.insert(rec("self", 4, false));
    let mut store = NodeTable::new();
    let mut s = Signals::new(false);
    promote(&mut backup, &"self".to_string(), &mut store, &mut s);
    assert!(store.is_empty());
    assert!(!s.has_update());
}

#[test]
fn demotion_keeps_only_the_manager() {
    let mut store = NodeTable::new();
    store.insert(rec("A", 1, false));
    store.insert(rec("M", 2, true));
    store.insert(rec("C", 3, false));
    let mut s = Signals::new(false);
    demote(&mut store, &mut s);
    assert_eq!(names(&store), vec!["M"]);
    assert!(s.has_update());
    demote(&mut store, &mut s);
    assert!(!s.has_update());
}

#[test]
fn reconcile_acts_on_role_changes_only() {
    let mut backup = NodeTable::new();
    backup.insert(rec("A", 1, false));
    backup.insert(rec("me", 2, false));
    let mut store = NodeTable::new();
    let mut s = Signals::new(false);
    let was = reconcile_role(false, &mut backup, &"me".to_string(), &mut store, &mut s);
    assert!(!was);
    assert!(store.is_empty());
    s.i_am_manager();
    let was = reconcile_role(was, &mut backup, &"me".to_string(), &mut store, &mut s);
    assert!(was);
    assert_eq!(names(&store), vec!["A"]);
    s.relinquish_management();
    let was = reconcile_role(was, &mut backup, &"me".to_string(), &mut store, &mut s);
    assert!(!was);
    assert!(store.is_empty());
}

#[test]
fn manager_replicates_every_change_with_new_version() {
    let mut backup = NodeTable::new();
    backup.insert(rec("me", 1, false));
    let mut s = Signals::new(true);
    let p1 = replicate_update(&mut backup, &mut s, UpdateType::Add, rec("x", 2, false));
    assert_eq!(s.current_table_version(), 1);
    let (t1, v1) = receive_update(&p1).unwrap();
    assert_eq!(v1, 1);
    assert_eq!(names(&t1), vec!["me", "x"]);
    let mut changed = rec("x", 2, false);
    changed.set_status(PCStatus::Offline);
    let p2 = replicate_update(&mut backup, &mut s, UpdateType::Change, changed);
    let (t2, v2) = receive_update(&p2).unwrap();
    assert_eq!(v2, 2);
    assert_eq!(*t2.get_index(1).get_status(), PCStatus::Offline);
    let p3 = replicate_update(&mut backup, &mut s, UpdateType::Remove, rec("x", 2, false));
    let (t3, v3) = receive_update(&p3).unwrap();
    assert_eq!(v3, 3);
    assert_eq!(names(&t3), vec!["me"]);
}

#[test]
fn apply_update_kinds() {
    let mut t = NodeTable::new();
    apply_update(&mut t, UpdateType::Add, rec("a", 1, false));
    apply_update(&mut t, UpdateType::Change, rec("a", 5, false));
    assert_eq!(t.get_index(0).get_mac()[5], 5);
    apply_update(&mut t, UpdateType::Remove, rec("a", 0, false));
    assert!(t.is_empty());
}

#[test]
fn empty_table_snapshot_round_trips() {
    let t = NodeTable::new();
    let p = make_snapshot(0, &t);
    assert_eq!(p.len(), 14);
    let (d, v) = receive_update(&p).unwrap();
    assert!(d.is_empty());
    assert_eq!(v, 0);
}

#[test]
fn duplicate_names_in_snapshot_keep_the_later_record() {
    let mut body = make_header(PacketType::SsrepPacket, 2).to_vec();
    body.extend_from_slice(&[0, 0, 0, 5]);
    body.extend_from_slice(&rec("a", 1, false).to_bytes());
    body.extend_from_slice(&rec("a", 2, true).to_bytes());
    let (d, v) = receive_update(&body).unwrap();
    assert_eq!(v, 5);
    assert_eq!(d.len(), 1);
    assert!(d.get_index(0).is_manager());
}
