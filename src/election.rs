//! Bully election with random tokens: a candidate broadcasts its token for a
//! fixed number of rounds, tells lower candidates to back off, backs off
//! itself when told so, and becomes manager when its budget runs out
//! unchallenged.

use vstd::prelude::*;
use crate::packets::{
    get_packet_type, get_payload, header_vec, packet_type_of, payload_of, header_bytes,
    PacketType,
};
use crate::signals::{Signals, SignalsView};
use crate::wire::{be_bytes, be_value, push_be, read_be, lemma_pow256_facts};

verus! {

/// Rounds a candidate waits, each ended by a receive timeout.
pub const MAX_TURNS: u32 = 5;

/// What an incoming election datagram says.
#[derive(Debug, PartialEq, Eq, Structural, Clone, Copy)]
pub enum ElectionMsg {
    /// Someone is manager already.
    Finished,
    /// A competing candidate and its token.
    Candidate(u32),
    /// A candidate with a greater token tells us to back off.
    Greater,
    /// Anything else: ignored.
    Other,
}

/// What happens in a round of the election.
#[derive(Debug, PartialEq, Eq, Structural, Clone, Copy)]
pub enum ElectionEvent {
    /// A datagram arrived.
    Received(ElectionMsg),
    /// The receive timed out.
    Timeout,
}

/// What the candidate does next.
#[derive(Debug, PartialEq, Eq, Structural, Clone, Copy)]
pub enum ElectionAction {
    /// Broadcast our candidacy.
    Broadcast,
    /// Tell the sender of the last datagram that our token is greater.
    ReplyGreater,
    /// Keep listening.
    Wait,
    /// The budget ran out unchallenged: become manager.
    Elected,
    /// Stop electing without becoming manager.
    Yield,
}

/// The state of one candidacy.
pub struct ElectionView {
    pub token: u32,
    pub someone_is_greater: bool,
    pub turns_left: u32,
}

/// A candidacy at its start.
pub open spec fn fresh(token: u32) -> ElectionView {
    ElectionView { token, someone_is_greater: false, turns_left: MAX_TURNS }
}

/// How a datagram reads to a candidate.
pub open spec fn election_msg_of(p: Seq<u8>) -> ElectionMsg {
    match packet_type_of(p) {
        Some(PacketType::SselFinPacket) => ElectionMsg::Finished,
        Some(PacketType::SselGtPacket) => ElectionMsg::Greater,
        Some(PacketType::SselPacket) => match payload_of(p) {
            Some(pl) => if pl.len() >= 4 {
                ElectionMsg::Candidate(be_value(pl.subrange(0, 4)) as u32)
            } else {
                ElectionMsg::Other
            },
            None => ElectionMsg::Other,
        },
        _ => ElectionMsg::Other,
    }
}

/// One step of a candidacy: the next state and what to do.
pub open spec fn election_step(s: ElectionView, e: ElectionEvent) -> (ElectionView, ElectionAction) {
    match e {
        ElectionEvent::Timeout => {
            let turns = if s.turns_left > 0 { (s.turns_left - 1) as u32 } else { 0u32 };
            let next = ElectionView { turns_left: turns, ..s };
            if turns == 0 {
                (next, if s.someone_is_greater { ElectionAction::Yield } else { ElectionAction::Elected })
            } else {
                (next, if s.someone_is_greater { ElectionAction::Wait } else { ElectionAction::Broadcast })
            }
        },
        ElectionEvent::Received(ElectionMsg::Finished) => (s, ElectionAction::Yield),
        ElectionEvent::Received(ElectionMsg::Candidate(n)) => (
            s,
            if s.token > n { ElectionAction::ReplyGreater } else { ElectionAction::Wait },
        ),
        ElectionEvent::Received(ElectionMsg::Greater) => (
            ElectionView { someone_is_greater: true, ..s },
            ElectionAction::Wait,
        ),
        ElectionEvent::Received(ElectionMsg::Other) => (s, ElectionAction::Wait),
    }
}

/// A candidacy run over a sequence of events: the final state and every
/// action taken, in order.
pub open spec fn election_run(s: ElectionView, events: Seq<ElectionEvent>) -> (ElectionView, Seq<ElectionAction>)
    decreases events.len(),
{
    if events.len() == 0 {
        (s, Seq::empty())
    } else {
        let prev = election_run(s, events.drop_last());
        let next = election_step(prev.0, events.last());
        (next.0, prev.1.push(next.1))
    }
}

/// The candidacy datagram for a token: the header, then the token on four bytes.
pub open spec fn candidacy_bytes(token: u32) -> Seq<u8> {
    header_bytes(PacketType::SselPacket, 4) + be_bytes(token as nat, 4)
}

/// Relies on `rand::random`: a value drawn from the thread's generator. Nothing
/// is promised of it.
pub assume_specification<T>[ rand::random::<T> ]() -> T
    where
        rand::distributions::Standard: rand::distributions::Distribution<T>,
;

/// Reads an incoming datagram as an election message.
pub fn classify(packet: &[u8]) -> (r: ElectionMsg)
    ensures
        r == election_msg_of(packet@),
{
    match get_packet_type(packet) {
        Ok(PacketType::SselFinPacket) => ElectionMsg::Finished,
        Ok(PacketType::SselGtPacket) => ElectionMsg::Greater,
        Ok(PacketType::SselPacket) => match get_payload(packet) {
            Ok(msg) => {
                if msg.len() >= 4 {
                    let n = read_be(msg.as_slice(), 0, 4);
                    proof {
                        crate::wire::lemma_be_value_bound(msg@.subrange(0, 4));
                        lemma_pow256_facts();
                    }
                    ElectionMsg::Candidate(n as u32)
                } else {
                    ElectionMsg::Other
                }
            },
            Err(_) => ElectionMsg::Other,
        },
        _ => ElectionMsg::Other,
    }
}

/// The election-finished datagram that a manager sends.
pub fn finished_packet() -> (r: Vec<u8>)
    ensures
        r@ == header_bytes(PacketType::SselFinPacket, 0),
{
    header_vec(PacketType::SselFinPacket, 0)
}

/// The greater-than datagram that tells a candidate to back off.
pub fn greater_packet() -> (r: Vec<u8>)
    ensures
        r@ == header_bytes(PacketType::SselGtPacket, 0),
{
    header_vec(PacketType::SselGtPacket, 0)
}

/// One candidacy.
pub struct Election {
    token: u32,
    someone_is_greater: bool,
    turns_left: u32,
}

impl View for Election {
    type V = ElectionView;

    closed spec fn view(&self) -> ElectionView {
        ElectionView {
            token: self.token,
            someone_is_greater: self.someone_is_greater,
            turns_left: self.turns_left,
        }
    }
}

impl Election {
    /// A candidacy with the given token and the whole budget.
    pub fn new(token: u32) -> (r: Election)
        ensures
            r@ == fresh(token),
    {
        Election { token, someone_is_greater: false, turns_left: MAX_TURNS }
    }

    /// A candidacy with a freshly drawn random token.
    pub fn with_random_token() -> (r: Election)
        ensures
            r@.someone_is_greater == false,
            r@.turns_left == MAX_TURNS,
    {
        Election::new(rand::random::<u32>())
    }

    pub fn token(&self) -> (r: u32)
        ensures
            r == self@.token,
    {
        self.token
    }

    /// Whether the candidacy still has rounds to wait.
    pub fn in_progress(&self) -> (r: bool)
        ensures
            r == (self@.turns_left > 0),
    {
        self.turns_left > 0
    }

    /// What to do when the candidacy opens: broadcast it.
    pub fn start(&self) -> (r: ElectionAction)
        ensures
            r == ElectionAction::Broadcast,
    {
        ElectionAction::Broadcast
    }

    /// The candidacy datagram to broadcast.
    pub fn packet(&self) -> (r: Vec<u8>)
        ensures
            r@ == candidacy_bytes(self@.token),
    {
        let mut packet = header_vec(PacketType::SselPacket, 4);
        proof {
            lemma_pow256_facts();
        }
        push_be(&mut packet, self.token as u64, 4);
        packet
    }

    /// Takes one event and says what to do.
    pub fn step(&mut self, event: ElectionEvent) -> (r: ElectionAction)
        ensures
            (final(self)@, r) == election_step(old(self)@, event),
    {
        match event {
            ElectionEvent::Timeout => {
                if self.turns_left > 0 {
                    self.turns_left = self.turns_left - 1;
                }
                if self.turns_left == 0 {
                    if self.someone_is_greater {
                        ElectionAction::Yield
                    } else {
                        ElectionAction::Elected
                    }
                } else if self.someone_is_greater {
                    ElectionAction::Wait
                } else {
                    ElectionAction::Broadcast
                }
            },
            ElectionEvent::Received(ElectionMsg::Finished) => ElectionAction::Yield,
            ElectionEvent::Received(ElectionMsg::Candidate(n)) => {
                if self.token > n {
                    ElectionAction::ReplyGreater
                } else {
                    ElectionAction::Wait
                }
            },
            ElectionEvent::Received(ElectionMsg::Greater) => {
                self.someone_is_greater = true;
                ElectionAction::Wait
            },
            ElectionEvent::Received(ElectionMsg::Other) => ElectionAction::Wait,
        }
    }
}

/// No event of the sequence tells the candidate to back off or that a
/// manager exists.
pub open spec fn unchallenged(events: Seq<ElectionEvent>) -> bool {
    forall|i: int|
        0 <= i < events.len() ==> #[trigger] events[i] != ElectionEvent::Received(
            ElectionMsg::Greater,
        ) && events[i] != ElectionEvent::Received(ElectionMsg::Finished)
}

/// Number of receive timeouts in a sequence of events.
pub open spec fn timeouts(events: Seq<ElectionEvent>) -> nat
    decreases events.len(),
{
    if events.len() == 0 {
        0
    } else {
        timeouts(events.drop_last()) + if events.last() == ElectionEvent::Timeout { 1nat } else { 0nat }
    }
}

/// A run takes one action per event.
pub proof fn lemma_run_len(s: ElectionView, events: Seq<ElectionEvent>)
    ensures
        election_run(s, events).1.len() == events.len(),
    decreases events.len(),
{
    if events.len() > 0 {
        lemma_run_len(s, events.drop_last());
    }
}

/// A candidate that has been told to back off stays backed off and is never
/// elected, whatever events follow.
pub proof fn lemma_outranked_never_elected(s: ElectionView, events: Seq<ElectionEvent>)
    requires
        s.someone_is_greater,
    ensures
        election_run(s, events).0.someone_is_greater,
        election_run(s, events).0.token == s.token,
        forall|i: int|
            0 <= i < events.len() ==> #[trigger] election_run(s, events).1[i]
                != ElectionAction::Elected,
    decreases events.len(),
{
    if events.len() > 0 {
        lemma_outranked_never_elected(s, events.drop_last());
        lemma_run_len(s, events.drop_last());
        let prev = election_run(s, events.drop_last());
        assert(election_run(s, events).1 == prev.1.push(election_step(prev.0, events.last()).1));
        assert forall|i: int| 0 <= i < events.len() implies #[trigger] election_run(s, events).1[i]
            != ElectionAction::Elected by {
            if i < events.len() - 1 {
                assert(election_run(s, events).1[i] == prev.1[i]);
            }
        }
    }
}

/// A candidate that hears of no greater token and of no manager keeps its
/// token and counts its rounds down by the timeouts it has seen.
pub proof fn lemma_unchallenged_run(token: u32, events: Seq<ElectionEvent>)
    requires
        unchallenged(events),
        timeouts(events) <= MAX_TURNS,
    ensures
        election_run(fresh(token), events).0 == (ElectionView {
            token,
            someone_is_greater: false,
            turns_left: (MAX_TURNS - timeouts(events)) as u32,
        }),
    decreases events.len(),
{
    if events.len() > 0 {
        let rest = events.drop_last();
        assert forall|i: int| 0 <= i < rest.len() implies #[trigger] rest[i]
            != ElectionEvent::Received(ElectionMsg::Greater) && rest[i] != ElectionEvent::Received(
            ElectionMsg::Finished,
        ) by {
            assert(rest[i] == events[i]);
        }
        lemma_unchallenged_run(token, rest);
        assert(events.last() == events[events.len() - 1]);
    }
}

/// Five rounds of silence: a fresh candidate re-broadcasts after each of the
/// first four timeouts and is elected at the fifth, so with its opening
/// broadcast it sends its candidacy five times.
pub proof fn lemma_silent_rounds_elect(token: u32)
    ensures
        election_run(fresh(token), Seq::new(5, |i: int| ElectionEvent::Timeout)).1 == seq![
            ElectionAction::Broadcast,
            ElectionAction::Broadcast,
            ElectionAction::Broadcast,
            ElectionAction::Broadcast,
            ElectionAction::Elected,
        ],
{
    let ev = Seq::new(5, |i: int| ElectionEvent::Timeout);
    assert(ev.drop_last() =~= Seq::new(4, |i: int| ElectionEvent::Timeout));
    assert(ev.drop_last().drop_last() =~= Seq::new(3, |i: int| ElectionEvent::Timeout));
    assert(ev.drop_last().drop_last().drop_last() =~= Seq::new(2, |i: int| ElectionEvent::Timeout));
    assert(ev.drop_last().drop_last().drop_last().drop_last() =~= Seq::new(1, |i: int| ElectionEvent::Timeout));
    assert(Seq::new(1, |i: int| ElectionEvent::Timeout).drop_last() =~= Seq::<ElectionEvent>::empty());
    reveal_with_fuel(election_run, 6);
    assert(election_run(fresh(token), ev).1 =~= seq![
        ElectionAction::Broadcast,
        ElectionAction::Broadcast,
        ElectionAction::Broadcast,
        ElectionAction::Broadcast,
        ElectionAction::Elected,
    ]);
}

/// The election tie-break: of two candidates with tokens `a > b`, the one
/// holding `a` answers the other's candidacy with greater-than; the one
/// holding `b`, once it receives that answer, is never elected; and the one
/// holding `a`, hearing of no greater token and of no manager, is elected when
/// its budget of rounds runs out. Equal tokens are not greater.
pub proof fn lemma_election_tie_break(
    a: u32,
    b: u32,
    b_state: ElectionView,
    b_events: Seq<ElectionEvent>,
    a_events: Seq<ElectionEvent>,
)
    requires
        a > b,
        b_state.token == b,
        unchallenged(a_events),
        timeouts(a_events) == MAX_TURNS,
        a_events.len() > 0,
        a_events.last() == ElectionEvent::Timeout,
    ensures
        election_step(fresh(a), ElectionEvent::Received(ElectionMsg::Candidate(b))).1
            == ElectionAction::ReplyGreater,
        election_step(fresh(b), ElectionEvent::Received(ElectionMsg::Candidate(b))).1
            == ElectionAction::Wait,
        forall|i: int|
            0 <= i < b_events.len() ==> #[trigger] election_run(
                election_step(b_state, ElectionEvent::Received(ElectionMsg::Greater)).0,
                b_events,
            ).1[i] != ElectionAction::Elected,
        election_run(fresh(a), a_events).1.last() == ElectionAction::Elected,
{
    let backed_off = election_step(b_state, ElectionEvent::Received(ElectionMsg::Greater)).0;
    lemma_outranked_never_elected(backed_off, b_events);
    let rest = a_events.drop_last();
    assert forall|i: int| 0 <= i < rest.len() implies #[trigger] rest[i]
        != ElectionEvent::Received(ElectionMsg::Greater) && rest[i] != ElectionEvent::Received(
        ElectionMsg::Finished,
    ) by {
        assert(rest[i] == a_events[i]);
    }
    lemma_unchallenged_run(a, rest);
}

/// What the election service does in one pass of its loop.
#[derive(Debug, PartialEq, Eq, Structural, Clone, Copy)]
pub enum ElectionDuty {
    /// As manager: answer candidates with election-finished.
    AnswerCandidates,
    /// No manager known: run an election.
    RunElection,
    /// A manager is known: wait.
    Idle,
}

/// The duty of the election service for the current flags.
pub open spec fn election_duty_of(s: SignalsView) -> ElectionDuty {
    if s.is_manager {
        ElectionDuty::AnswerCandidates
    } else if !s.manager_found {
        ElectionDuty::RunElection
    } else {
        ElectionDuty::Idle
    }
}

/// The duty of the election service for the current flags.
pub fn election_duty(signals: &Signals) -> (r: ElectionDuty)
    ensures
        r == election_duty_of(signals@),
{
    if signals.is_manager() {
        ElectionDuty::AnswerCandidates
    } else if !signals.manager_found() {
        ElectionDuty::RunElection
    } else {
        ElectionDuty::Idle
    }
}

/// Whether a manager answers this datagram with election-finished: it does
/// for every candidacy.
pub fn answers_candidate(packet: &[u8]) -> (r: bool)
    ensures
        r == (packet_type_of(packet@) == Some(PacketType::SselPacket)),
{
    match get_packet_type(packet) {
        Ok(t) => t == PacketType::SselPacket,
        Err(_) => false,
    }
}

/// The flags after an election: it has ended, and a winner holds the manager
/// role and has raised the membership-changed notice.
pub open spec fn concluded(s: SignalsView, won: bool) -> SignalsView {
    SignalsView {
        electing: false,
        is_manager: if won { true } else { s.is_manager },
        update: if won { true } else { s.update },
        ..s
    }
}

/// Records the outcome of an election: the election ends, and a winner takes
/// the manager role and raises the membership-changed notice.
pub fn conclude_election(signals: &mut Signals, won: bool)
    ensures
        final(signals)@ == concluded(old(signals)@, won),
{
    signals.end_election();
    if won {
        signals.i_am_manager();
        signals.send_update();
    }
}

} // verus!
