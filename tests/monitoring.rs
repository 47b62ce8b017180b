use sleep_manager::election::{election_duty, ElectionDuty};
use sleep_manager::management::update_status;
use sleep_manager::monitoring::{
    is_ack_from, is_status_request, manager_timed_out, poll_step, status_ack_packet,
    status_change, status_request_packet, watch_manager, PollStep, MANAGER_TIMEOUT_MS,
    STATUS_RETRIES,
};
use sleep_manager::pcinfo::{PCInfo, PCStatus};
use sleep_manager::replication::UpdateType;
use sleep_manager::signals::Signals;
use sleep_manager::table::NodeTable;

fn rec(name: &str, last: u8, manager: bool) -> PCInfo {
    PCInfo::new(name.to_string(), [2, 0, 0, 0, 0, last], [10, 0, 0, last], PCStatus::Online, manager)
}

#[test]
fn status_packets() {
    assert!(is_status_request(&status_request_packet()));
    assert!(!is_status_request(&status_ack_packet()));
    let ip = [10, 0, 0, 7];
    assert!(is_ack_from(&status_ack_packet(), &ip, &ip));
    assert!(!is_ack_from(&status_ack_packet(), &[10, 0, 0, 8], &ip));
    assert!(!is_ack_from(&status_request_packet(), &ip, &ip));
}

#[test]
fn silent_member_is_retried_then_offline() {
    assert_eq!(STATUS_RETRIES, 2);
    assert_eq!(poll_step(STATUS_RETRIES, false), PollStep::Retry(1));
    assert_eq!(poll_step(1, false), PollStep::Retry(0));
    assert_eq!(poll_step(0, false), PollStep::Done(PCStatus::Offline));
    assert_eq!(poll_step(0, true), PollStep::Done(PCStatus::Online));
}

#[test]
fn only_differing_status_is_reported() {
    assert_eq!(status_change(&PCStatus::Online, PCStatus::Offline), Some(PCStatus::Offline));
    assert_eq!(status_change(&PCStatus::Offline, PCStatus::Offline), None);
}

#[test]
fn failure_detected_exactly_once() {
    let mut store = NodeTable::new();
    store.insert(rec("f", 1, false));
    let mut s = Signals::new(true);
    let mut updates = Vec::new();
    // two rounds answered, then four silent rounds
    let answers = [true, true, false, false, false, false];
    for answered in answers {
        let mut tries = STATUS_RETRIES;
        let observed = loop {
            match poll_step(tries, answered) {
                PollStep::Done(st) => break st,
                PollStep::Retry(t) => tries = t,
            }
        };
        let stored = *store.get_index(0).get_status();
        if let Some(new_status) = status_change(&stored, observed) {
            if let Some(u) = update_status(&mut store, &mut s, &"f".to_string(), new_status) {
                updates.push(u);
            }
        }
    }
    assert_eq!(updates.len(), 1);
    assert_eq!(updates[0].0, UpdateType::Change);
    assert_eq!(*updates[0].1.get_status(), PCStatus::Offline);
    assert_eq!(*store.get_index(0).get_status(), PCStatus::Offline);
}

#[test]
fn manager_loss_detected_after_timeout() {
    let mut store = NodeTable::new();
    store.insert(rec("m", 1, true));
    store.insert(rec("f", 2, false));
    let mut s = Signals::new(false);
    s.found_manager();
    assert!(!watch_manager(&mut store, &mut s, MANAGER_TIMEOUT_MS - 1));
    assert_eq!(store.len(), 2);
    assert!(s.manager_found());
    assert!(watch_manager(&mut store, &mut s, MANAGER_TIMEOUT_MS));
    assert!(!s.manager_found());
    assert_eq!(store.len(), 1);
    assert_eq!(store.get_index(0).get_name(), "f");
    assert!(s.has_update());
    assert_eq!(election_duty(&s), ElectionDuty::RunElection);
}

#[test]
fn no_manager_known_no_loss() {
    let mut store = NodeTable::new();
    let mut s = Signals::new(false);
    assert!(!manager_timed_out(&s, 1_000_000));
    assert!(!watch_manager(&mut store, &mut s, 1_000_000));
    assert!(!s.has_update());
}

#[test]
fn manager_never_runs_follower_timeout() {
    let mut store = NodeTable::new();
    store.insert(rec("m", 1, true));
    let mut s = Signals::new(true);
    s.found_manager();
    assert!(!manager_timed_out(&s, MANAGER_TIMEOUT_MS * 10));
    assert!(!watch_manager(&mut store, &mut s, MANAGER_TIMEOUT_MS * 10));
    assert_eq!(store.len(), 1);
    assert!(s.manager_found());
}
