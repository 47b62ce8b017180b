use sleep_manager::discovery::{after_find, find_manager, listen_for_clients, make_ack_packet, make_seek_packet};
use sleep_manager::election::{classify, conclude_election, greater_packet, Election, ElectionAction, ElectionEvent};
use sleep_manager::management::add_pc;
use sleep_manager::pcinfo::{PCInfo, PCStatus};
use sleep_manager::replication::{apply_snapshot, reconcile_role, replicate_update};
use sleep_manager::signals::Signals;
use sleep_manager::table::NodeTable;

struct Node {
    name: String,
    mac: [u8; 6],
    ip: [u8; 4],
    signals: Signals,
    store: NodeTable,
    backup: NodeTable,
    was_manager: bool,
}

fn node(name: &str, n: u8) -> Node {
    let mut backup = NodeTable::new();
    let mac = [0x02, 0, 0, 0, 0, n];
    let ip = [10, 0, 0, n];
    backup.insert(PCInfo::new(name.to_string(), mac, ip, PCStatus::Online, false));
    Node {
        name: name.to_string(),
        mac,
        ip,
        signals: Signals::new(false),
        store: NodeTable::new(),
        backup,
        was_manager: false,
    }
}

fn names(t: &NodeTable) -> Vec<String> {
    (0..t.len()).map(|i| t.get_index(i).get_name().clone()).collect()
}

/// The manager hears a seek, records the seeker, acknowledges it and
/// replicates; the seeker records the manager; every follower applies the
/// snapshot.
fn join(manager: &mut Node, joiner: &mut Node, followers: &mut [&mut Node]) -> Vec<u8> {
    let seek = make_seek_packet(&joiner.mac, &joiner.name);
    let newcomer = listen_for_clients(&seek, joiner.ip, &manager.name).unwrap();
    let (kind, pc) = add_pc(&mut manager.store, &mut manager.signals, newcomer);
    let snapshot = replicate_update(&mut manager.backup, &mut manager.signals, kind, pc);
    let own_seek = make_seek_packet(&manager.mac, &manager.name);
    let ack = make_ack_packet(&own_seek);
    if !joiner.signals.manager_found() {
        let boss = find_manager(&ack, manager.ip).unwrap();
        add_pc(&mut joiner.store, &mut joiner.signals, boss);
        after_find(&mut joiner.signals, true);
    }
    for f in followers.iter_mut() {
        assert!(apply_snapshot(&mut f.backup, &mut f.signals, &snapshot));
    }
    snapshot
}

#[test]
fn three_nodes_elect_one_manager_and_a_late_joiner_is_replicated() {
    let mut a = node("alpha", 1);
    let mut b = node("beta", 2);
    let mut c = node("gamma", 3);
    let mut elections = [Election::new(30), Election::new(20), Election::new(10)];
    let packets: Vec<Vec<u8>> = elections.iter().map(|e| e.packet()).collect();

    // every candidacy reaches every node; greater tokens answer lower ones
    let mut greater_to = [false; 3];
    for (i, e) in elections.iter_mut().enumerate() {
        for (j, p) in packets.iter().enumerate() {
            let msg = classify(p);
            if e.step(ElectionEvent::Received(msg)) == ElectionAction::ReplyGreater {
                assert!(i < j);
                greater_to[j] = true;
            }
        }
    }
    assert_eq!(greater_to, [false, true, true]);
    for (j, e) in elections.iter_mut().enumerate() {
        if greater_to[j] {
            assert_eq!(e.step(ElectionEvent::Received(classify(&greater_packet()))), ElectionAction::Wait);
        }
    }
    let mut outcomes = Vec::new();
    for e in elections.iter_mut() {
        let mut last = ElectionAction::Wait;
        for _ in 0..5 {
            last = e.step(ElectionEvent::Timeout);
        }
        outcomes.push(last);
    }
    assert_eq!(outcomes, vec![ElectionAction::Elected, ElectionAction::Yield, ElectionAction::Yield]);

    for (n, won) in [(&mut a, true), (&mut b, false), (&mut c, false)] {
        conclude_election(&mut n.signals, won);
        n.was_manager = reconcile_role(n.was_manager, &mut n.backup, &n.name, &mut n.store, &mut n.signals);
    }
    assert!(a.signals.is_manager() && !b.signals.is_manager() && !c.signals.is_manager());
    assert!(a.store.is_empty());

    // the two followers find the manager and join
    join(&mut a, &mut b, &mut []);
    {
        let (a_ref, c_ref, b_ref) = (&mut a, &mut c, &mut b);
        join(a_ref, c_ref, &mut [b_ref]);
    }
    for f in [&b, &c] {
        assert_eq!(names(&f.store), vec!["alpha"]);
        assert!(f.store.get_index(0).is_manager());
        assert!(f.signals.manager_found());
    }
    let managers = [&a, &b, &c].iter().filter(|n| n.signals.is_manager()).count();
    assert_eq!(managers, 1);
    let version_before = a.signals.current_table_version();

    // a fourth node joins late
    let mut d = node("delta", 4);
    {
        let (a_ref, d_ref, b_ref, c_ref) = (&mut a, &mut d, &mut b, &mut c);
        let snapshot = join(a_ref, d_ref, &mut [b_ref, c_ref]);
        assert!(apply_snapshot(&mut d.backup, &mut d.signals, &snapshot));
    }
    assert_eq!(names(&a.store), vec!["beta", "gamma", "delta"]);
    assert_eq!(a.signals.current_table_version(), version_before + 1);
    for f in [&b, &c, &d] {
        assert_eq!(f.signals.current_table_version(), version_before + 1);
        assert_eq!(names(&f.backup), names(&a.backup));
    }
    assert_eq!(names(&a.backup), vec!["alpha", "beta", "gamma", "delta"]);
}
