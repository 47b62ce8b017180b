//! Failure detection: the manager polls every member for its status, and a
//! follower watches for the manager's polls to stop.

use vstd::prelude::*;
use crate::election::{election_duty_of, ElectionDuty};
use crate::packets::{check_packet, header_bytes, header_vec, packet_type_of, PacketType};
use crate::pcinfo::{NodeView, PCStatus};
use crate::signals::{Signals, SignalsView};
use crate::table::{without_managers, NodeTable};

verus! {

/// Status requests sent again to a member after the first goes unanswered.
pub const STATUS_RETRIES: u32 = 2;

/// Milliseconds without a status request after which a follower declares its
/// manager lost.
pub const MANAGER_TIMEOUT_MS: u64 = 5000;

/// The status request that the manager sends to each member.
pub fn status_request_packet() -> (r: Vec<u8>)
    ensures
        r@ == header_bytes(PacketType::SsrPacket, 0),
{
    header_vec(PacketType::SsrPacket, 0)
}

/// The answer a follower gives to a status request.
pub fn status_ack_packet() -> (r: Vec<u8>)
    ensures
        r@ == header_bytes(PacketType::SsrAckPacket, 0),
{
    header_vec(PacketType::SsrAckPacket, 0)
}

/// Whether a datagram is a status request.
pub fn is_status_request(packet: &[u8]) -> (r: bool)
    ensures
        r == (packet_type_of(packet@) == Some(PacketType::SsrPacket)),
{
    check_packet(packet, PacketType::SsrPacket).is_ok()
}

/// Whether a datagram from `src_ip` is the status acknowledgement awaited
/// from the member at `ip`.
pub fn is_ack_from(packet: &[u8], src_ip: &[u8; 4], ip: &[u8; 4]) -> (r: bool)
    ensures
        r == (packet_type_of(packet@) == Some(PacketType::SsrAckPacket) && src_ip@ == ip@),
{
    if check_packet(packet, PacketType::SsrAckPacket).is_err() {
        return false;
    }
    let mut i: usize = 0;
    while i < 4
        invariant
            i <= 4,
            forall|j: int| 0 <= j < i ==> src_ip@[j] == ip@[j],
        decreases 4 - i,
    {
        if src_ip[i] != ip[i] {
            return false;
        }
        i = i + 1;
    }
    assert(src_ip@ =~= ip@);
    true
}

/// What polling one member does after an attempt.
#[derive(Debug, PartialEq, Eq, Structural, Clone, Copy)]
pub enum PollStep {
    /// The member's status is settled.
    Done(PCStatus),
    /// Send the request again, with this many retries left after it.
    Retry(u32),
}

/// After an attempt: an answer settles the member Online; silence with no
/// retries left settles it Offline; otherwise the request goes out again.
pub open spec fn poll_step_of(tries_left: u32, answered: bool) -> PollStep {
    if answered {
        PollStep::Done(PCStatus::Online)
    } else if tries_left == 0 {
        PollStep::Done(PCStatus::Offline)
    } else {
        PollStep::Retry((tries_left - 1) as u32)
    }
}

/// What polling one member does after an attempt.
pub fn poll_step(tries_left: u32, answered: bool) -> (r: PollStep)
    ensures
        r == poll_step_of(tries_left, answered),
{
    if answered {
        PollStep::Done(PCStatus::Online)
    } else if tries_left == 0 {
        PollStep::Done(PCStatus::Offline)
    } else {
        PollStep::Retry(tries_left - 1)
    }
}

/// The status a poll settles on when the member answers none of its attempts.
pub open spec fn silent_poll(tries_left: u32) -> PCStatus
    decreases tries_left,
{
    match poll_step_of(tries_left, false) {
        PollStep::Done(s) => s,
        PollStep::Retry(t) => silent_poll(t),
    }
}

/// A member that answers no attempt is settled Offline.
pub proof fn lemma_silent_member_offline(tries_left: u32)
    ensures
        silent_poll(tries_left) == PCStatus::Offline,
    decreases tries_left,
{
    if tries_left > 0 {
        lemma_silent_member_offline((tries_left - 1) as u32);
    }
}

/// Number of requests a poll sends to a member that answers none of them.
pub open spec fn silent_poll_attempts(tries_left: u32) -> nat
    decreases tries_left,
{
    match poll_step_of(tries_left, false) {
        PollStep::Done(_) => 1,
        PollStep::Retry(t) => 1 + silent_poll_attempts(t),
    }
}

/// A member that answers none of the requests gets one request and one more
/// per retry: three in all from a fresh poll.
pub proof fn lemma_silent_poll_attempts(tries_left: u32)
    ensures
        silent_poll_attempts(tries_left) == tries_left + 1,
        silent_poll_attempts(STATUS_RETRIES) == 3,
    decreases tries_left,
{
    if tries_left > 0 {
        lemma_silent_poll_attempts((tries_left - 1) as u32);
    }
    reveal_with_fuel(silent_poll_attempts, 3);
}

/// The status to report after a poll: the observed one when it differs from
/// the stored one, nothing otherwise.
pub open spec fn status_change_of(stored: PCStatus, observed: PCStatus) -> Option<PCStatus> {
    if observed == stored {
        None
    } else {
        Some(observed)
    }
}

/// The status to report after a poll: the observed one when it differs from
/// the stored one, nothing otherwise.
pub fn status_change(stored: &PCStatus, observed: PCStatus) -> (r: Option<PCStatus>)
    ensures
        r == status_change_of(*stored, observed),
{
    if observed == *stored {
        None
    } else {
        Some(observed)
    }
}

/// The stored status of a member, and the number of updates reported, after
/// polling rounds that observe the given statuses in turn; each report is
/// applied to the store before the next round.
pub open spec fn poll_rounds(stored: PCStatus, observed: Seq<PCStatus>) -> (PCStatus, nat)
    decreases observed.len(),
{
    if observed.len() == 0 {
        (stored, 0)
    } else {
        let prev = poll_rounds(stored, observed.drop_last());
        match status_change_of(prev.0, observed.last()) {
            Some(s) => (s, prev.1 + 1),
            None => prev,
        }
    }
}

/// Failure detection: a member stored Online that answers for some rounds and
/// then stops answering for one round or more ends stored Offline, with
/// exactly one update reported.
pub proof fn lemma_failure_detected_once(observed: Seq<PCStatus>, answering: nat)
    requires
        answering < observed.len(),
        forall|i: int| 0 <= i < answering ==> observed[i] == PCStatus::Online,
        forall|i: int| answering <= i < observed.len() ==> observed[i] == PCStatus::Offline,
    ensures
        poll_rounds(PCStatus::Online, observed) == (PCStatus::Offline, 1nat),
    decreases observed.len(),
{
    let rest = observed.drop_last();
    if rest.len() == answering {
        lemma_still_online(rest);
    } else {
        lemma_failure_detected_once(rest, answering);
    }
}

/// Rounds that all find the member Online report nothing.
pub proof fn lemma_still_online(observed: Seq<PCStatus>)
    requires
        forall|i: int| 0 <= i < observed.len() ==> observed[i] == PCStatus::Online,
    ensures
        poll_rounds(PCStatus::Online, observed) == (PCStatus::Online, 0nat),
    decreases observed.len(),
{
    if observed.len() > 0 {
        lemma_still_online(observed.drop_last());
    }
}

/// Whether a follower declares its manager lost: the node is not manager
/// itself, a manager was known, and no status request has come for at least
/// the timeout.
pub open spec fn manager_timed_out_of(s: SignalsView, silent_ms: u64) -> bool {
    !s.is_manager && s.manager_found && silent_ms >= MANAGER_TIMEOUT_MS
}

/// Whether a follower declares its manager lost.
pub fn manager_timed_out(signals: &Signals, silent_ms: u64) -> (r: bool)
    ensures
        r == manager_timed_out_of(signals@, silent_ms),
{
    !signals.is_manager() && signals.manager_found() && silent_ms >= MANAGER_TIMEOUT_MS
}

/// The store and flags of a follower after its receive timed out, `silent_ms`
/// milliseconds after the last status request: when the manager is declared
/// lost, its record leaves the store, no manager is known any more, and the
/// membership-changed notice is raised.
pub open spec fn watch_outcome(store: Seq<NodeView>, s: SignalsView, silent_ms: u64) -> (
    Seq<NodeView>,
    SignalsView,
) {
    if manager_timed_out_of(s, silent_ms) {
        (
            without_managers(store),
            SignalsView { manager_found: false, update: true, ..s },
        )
    } else {
        (store, s)
    }
}

/// Follower side, on a receive timeout: declares the manager lost when it has
/// been silent for too long. Returns whether it did.
pub fn watch_manager(store: &mut NodeTable, signals: &mut Signals, silent_ms: u64) -> (r: bool)
    requires
        old(store).wf(),
    ensures
        final(store).wf(),
        r == manager_timed_out_of(old(signals)@, silent_ms),
        (final(store)@, final(signals)@) == watch_outcome(old(store)@, old(signals)@, silent_ms),
{
    if manager_timed_out(signals, silent_ms) {
        let c = crate::table::Criterion::NonManagers;
        store.retain(&c);
        assert((|v: NodeView| crate::table::keeps(c, v)) =~= (|v: NodeView| !v.is_manager));
        signals.lost_manager();
        signals.send_update();
        true
    } else {
        false
    }
}

/// Manager-loss detection: a follower that knew its manager and has heard no
/// status request for at least the timeout forgets the manager, drops every
/// record flagged as manager, raises the membership-changed notice, and its
/// election service runs an election on its next pass.
pub proof fn lemma_manager_loss_restarts_election(
    store: Seq<NodeView>,
    s: SignalsView,
    silent_ms: u64,
)
    requires
        s.manager_found,
        !s.is_manager,
        silent_ms >= MANAGER_TIMEOUT_MS,
    ensures
        !watch_outcome(store, s, silent_ms).1.manager_found,
        watch_outcome(store, s, silent_ms).1.update,
        forall|i: int|
            0 <= i < watch_outcome(store, s, silent_ms).0.len() ==> !(#[trigger] watch_outcome(
                store,
                s,
                silent_ms,
            ).0[i]).is_manager,
        election_duty_of(watch_outcome(store, s, silent_ms).1) == ElectionDuty::RunElection,
{
    let pred = |v: NodeView| !v.is_manager;
    assert forall|i: int| 0 <= i < store.filter(pred).len() implies !(#[trigger] store.filter(
        pred,
    )[i]).is_manager by {
        store.lemma_filter_pred(pred, i);
    }
}

} // verus!
