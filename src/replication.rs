//! Replication: the manager broadcasts its whole backup table after every
//! membership change; followers replace theirs with each snapshot; and a role
//! change moves records between the backup table and the live store.

use vstd::prelude::*;
use vstd::slice::slice_subrange;
use crate::packets::{
    check_packet, declared_length, header_bytes, header_vec, packet_type_of, PacketType,
    HEADER_SIZE,
};
use crate::election::concluded;
use crate::pcinfo::{
    decode_record, encodable, lemma_record_round_trip, record_bytes, NodeView, PCInfo,
};
use crate::signals::{next_version, Signals, SignalsView};
use crate::table::{
    flags_cleared, has_name, keeps, managers_only, names_unique, table_insert, table_remove,
    Criterion, NodeTable,
};
use crate::wire::{
    be_bytes, be_value, lemma_be_bytes_len, lemma_be_round_trip, lemma_pow256_facts, push_all,
    push_be, read_be,
};

verus! {

/// The kinds of membership change that the manager replicates.
#[derive(Debug, PartialEq, Eq, Structural, Clone, Copy)]
pub enum UpdateType {
    Add,
    Remove,
    Change,
}

/// The kind of change a code stands for, if any.
pub open spec fn update_type_of_code(b: u8) -> Option<UpdateType> {
    if b == 0x01 {
        Some(UpdateType::Add)
    } else if b == 0x02 {
        Some(UpdateType::Remove)
    } else if b == 0x03 {
        Some(UpdateType::Change)
    } else {
        None
    }
}

impl UpdateType {
    /// The kind of change of a code; `Err` for a code that names none.
    pub fn try_from(value: u8) -> (r: Result<UpdateType, ()>)
        ensures
            r is Ok <==> update_type_of_code(value) is Some,
            r is Ok ==> update_type_of_code(value) == Some(r->Ok_0),
    {
        if value == 0x01 {
            Ok(UpdateType::Add)
        } else if value == 0x02 {
            Ok(UpdateType::Remove)
        } else if value == 0x03 {
            Ok(UpdateType::Change)
        } else {
            Err(())
        }
    }
}

/// The records of a table on the wire, one after another.
pub open spec fn table_bytes(s: Seq<NodeView>) -> Seq<u8>
    decreases s.len(),
{
    if s.len() == 0 {
        Seq::empty()
    } else {
        table_bytes(s.drop_last()) + record_bytes(s.last())
    }
}

/// A snapshot datagram: the header, whose length field counts the records,
/// then the version on four bytes, then the records.
pub open spec fn snapshot_bytes(version: u32, s: Seq<NodeView>) -> Seq<u8> {
    header_bytes(PacketType::SsrepPacket, s.len()) + be_bytes(version as nat, 4) + table_bytes(s)
}

/// The first `n` records at the start of `b`, if they are all well formed.
pub open spec fn decode_records(b: Seq<u8>, n: nat) -> Option<Seq<NodeView>>
    decreases n,
{
    if n == 0 {
        Some(Seq::empty())
    } else {
        match decode_record(b) {
            None => None,
            Some((r, used)) => match decode_records(b.subrange(used as int, b.len() as int), (n - 1) as nat) {
                None => None,
                Some(rest) => Some(seq![r] + rest),
            },
        }
    }
}

/// The table that results from putting the records in order, a later record
/// replacing an earlier one of the same hostname.
pub open spec fn table_from(rs: Seq<NodeView>) -> Seq<NodeView>
    decreases rs.len(),
{
    if rs.len() == 0 {
        Seq::empty()
    } else {
        table_insert(table_from(rs.drop_last()), rs.last())
    }
}

/// The table and version that a snapshot datagram carries: present when it
/// is a replication datagram with a version and as many well-formed records as
/// its header counts.
pub open spec fn parse_snapshot(p: Seq<u8>) -> Option<(Seq<NodeView>, u32)> {
    if packet_type_of(p) != Some(PacketType::SsrepPacket) || p.len() < HEADER_SIZE + 4 {
        None
    } else {
        match decode_records(p.subrange(HEADER_SIZE + 4, p.len() as int), declared_length(p)) {
            None => None,
            Some(rs) => Some(
                (table_from(rs), be_value(p.subrange(HEADER_SIZE as int, HEADER_SIZE + 4)) as u32),
            ),
        }
    }
}

/// The encoding of two tables one after the other is the encoding of the
/// first followed by that of the second.
pub proof fn lemma_table_bytes_concat(a: Seq<NodeView>, b: Seq<NodeView>)
    ensures
        table_bytes(a + b) == table_bytes(a) + table_bytes(b),
    decreases b.len(),
{
    if b.len() == 0 {
        assert(a + b =~= a);
        assert(table_bytes(a) + table_bytes(b) =~= table_bytes(a));
    } else {
        assert((a + b).drop_last() =~= a + b.drop_last());
        lemma_table_bytes_concat(a, b.drop_last());
        assert(table_bytes(a + b) =~= table_bytes(a) + table_bytes(b));
    }
}

/// Decoding the encoding of encodable records, whatever follows, gives them
/// back in order.
pub proof fn lemma_decode_records_round_trip(s: Seq<NodeView>, rest: Seq<u8>)
    requires
        forall|i: int| 0 <= i < s.len() ==> encodable(#[trigger] s[i]),
    ensures
        decode_records(table_bytes(s) + rest, s.len()) == Some(s),
    decreases s.len(),
{
    if s.len() == 0 {
        assert(s =~= Seq::<NodeView>::empty());
    } else {
        let first = s[0];
        let tail = s.drop_first();
        assert(seq![first] + tail =~= s);
        lemma_table_bytes_concat(seq![first], tail);
        assert(seq![first].drop_last() =~= Seq::<NodeView>::empty());
        assert(seq![first].last() == first);
        assert(table_bytes(seq![first].drop_last()) =~= Seq::<u8>::empty());
        assert(table_bytes(seq![first]) =~= record_bytes(first));
        let b = table_bytes(s) + rest;
        assert(b =~= record_bytes(first) + (table_bytes(tail) + rest));
        lemma_record_round_trip(first, table_bytes(tail) + rest);
        let k = record_bytes(first).len();
        assert(b.subrange(k as int, b.len() as int) =~= table_bytes(tail) + rest);
        assert forall|i: int| 0 <= i < tail.len() implies encodable(#[trigger] tail[i]) by {
            assert(tail[i] == s[i + 1]);
        }
        lemma_decode_records_round_trip(tail, rest);
        assert(seq![first] + tail =~= s);
    }
}

/// Putting records with distinct hostnames in order gives them back as they are.
pub proof fn lemma_table_from_unique(s: Seq<NodeView>)
    requires
        names_unique(s),
    ensures
        table_from(s) == s,
    decreases s.len(),
{
    if s.len() == 0 {
        assert(s =~= Seq::<NodeView>::empty());
    } else {
        let rest = s.drop_last();
        assert(names_unique(rest));
        lemma_table_from_unique(rest);
        assert(!has_name(rest, s.last().name));
        assert(rest.push(s.last()) =~= s);
    }
}

/// Snapshot delivery: a snapshot that the manager builds from its backup
/// table decodes, on every follower that receives it, to that same table and
/// version.
pub proof fn lemma_snapshot_round_trip(version: u32, s: Seq<NodeView>)
    requires
        names_unique(s),
        s.len() < 65536,
        forall|i: int| 0 <= i < s.len() ==> encodable(#[trigger] s[i]),
    ensures
        parse_snapshot(snapshot_bytes(version, s)) == Some((s, version)),
{
    let p = snapshot_bytes(version, s);
    let h = header_bytes(PacketType::SsrepPacket, s.len());
    lemma_be_bytes_len(version as nat, 4);
    lemma_pow256_facts();
    lemma_be_round_trip(version as nat, 4);
    crate::packets::lemma_type_code_round_trip(PacketType::SsrepPacket);
    assert(p.subrange(0, 10) =~= h);
    assert(p[3] == h[3]);
    assert(p[6] == h[6] && p[7] == h[7]);
    assert(declared_length(p) == s.len());
    assert(p.subrange(10, 14) =~= be_bytes(version as nat, 4));
    assert(p.subrange(14, p.len() as int) =~= table_bytes(s) + Seq::<u8>::empty());
    lemma_decode_records_round_trip(s, Seq::<u8>::empty());
    lemma_table_from_unique(s);
}

/// Decodes a snapshot datagram into its table and version; `Err` when it is
/// not a replication datagram or a record is cut short or malformed.
pub fn receive_update(buf: &[u8]) -> (r: Result<(NodeTable, u32), ()>)
    ensures
        r is Ok <==> parse_snapshot(buf@) is Some,
        r is Ok ==> r->Ok_0.0.wf() && parse_snapshot(buf@) == Some((r->Ok_0.0@, r->Ok_0.1)),
{
    let num_entries = match check_packet(buf, PacketType::SsrepPacket) {
        Ok(n) => n,
        Err(_) => return Err(()),
    };
    let len = buf.len();
    if len < HEADER_SIZE + 4 {
        return Err(());
    }
    let version = read_be(buf, HEADER_SIZE, 4);
    proof {
        crate::wire::lemma_be_value_bound(buf@.subrange(HEADER_SIZE as int, HEADER_SIZE + 4));
        lemma_pow256_facts();
    }
    let ghost body = buf@.subrange(HEADER_SIZE + 4, len as int);
    let mut used: usize = HEADER_SIZE + 4;
    let mut table = NodeTable::new();
    let mut left: usize = num_entries;
    let ghost mut done: Seq<NodeView> = Seq::empty();
    while left > 0
        invariant
            HEADER_SIZE + 4 <= used <= len,
            len == buf@.len(),
            left <= num_entries,
            num_entries == declared_length(buf@),
            body == buf@.subrange(HEADER_SIZE + 4, len as int),
            table.wf(),
            table@ == table_from(done),
            decode_records(body, num_entries as nat) == match decode_records(
                buf@.subrange(used as int, len as int),
                left as nat,
            ) {
                None => None,
                Some(rest) => Some(done + rest),
            },
        decreases left,
    {
        let rest = slice_subrange(buf, used, len);
        match PCInfo::from_bytes(rest) {
            Ok((pc, n)) => {
                proof {
                    assert(rest@.subrange(n as int, rest@.len() as int) =~= buf@.subrange(
                        used + n,
                        len as int,
                    ));
                    let tail = decode_records(buf@.subrange(used + n, len as int), (left - 1) as nat);
                    if tail is Some {
                        assert(done + (seq![pc@] + tail->Some_0) =~= done.push(pc@) + tail->Some_0);
                    }
                    assert(done.push(pc@).drop_last() =~= done);
                    done = done.push(pc@);
                }
                table.insert(pc);
                used = used + n;
                left = left - 1;
            },
            Err(_) => {
                return Err(());
            },
        }
    }
    proof {
        assert(done + Seq::<NodeView>::empty() =~= done);
    }
    Ok((table, version as u32))
}

/// The records of a table on the wire, one after another.
pub fn serialize_pc_map(pc_map: &NodeTable) -> (r: Vec<u8>)
    ensures
        r@ == table_bytes(pc_map@),
        forall|i: int| 0 <= i < pc_map@.len() ==> encodable(#[trigger] pc_map@[i]),
{
    let mut buf: Vec<u8> = Vec::new();
    let mut i: usize = 0;
    while i < pc_map.len()
        invariant
            i <= pc_map@.len(),
            buf@ == table_bytes(pc_map@.subrange(0, i as int)),
            forall|j: int| 0 <= j < i ==> encodable(#[trigger] pc_map@[j]),
        decreases pc_map@.len() - i,
    {
        let bytes = pc_map.get_index(i).to_bytes();
        proof {
            assert(pc_map@.subrange(0, i + 1).drop_last() =~= pc_map@.subrange(0, i as int));
        }
        push_all(&mut buf, bytes.as_slice());
        i = i + 1;
    }
    assert(pc_map@.subrange(0, pc_map@.len() as int) =~= pc_map@);
    buf
}

/// The snapshot datagram for a version and a table. When the table has
/// fewer records than the header's length field can count, the datagram
/// decodes to that table and version.
pub fn make_snapshot(version: u32, pc_map: &NodeTable) -> (r: Vec<u8>)
    requires
        pc_map.wf(),
    ensures
        r@ == snapshot_bytes(version, pc_map@),
        pc_map@.len() < 65536 ==> parse_snapshot(r@) == Some((pc_map@, version)),
{
    let mut packet = header_vec(PacketType::SsrepPacket, pc_map.len());
    proof {
        lemma_pow256_facts();
    }
    push_be(&mut packet, version as u64, 4);
    let body = serialize_pc_map(pc_map);
    push_all(&mut packet, body.as_slice());
    proof {
        if pc_map@.len() < 65536 {
            lemma_snapshot_round_trip(version, pc_map@);
        }
    }
    packet
}

/// The backup table after a membership change: an addition or a change puts
/// the record under its hostname, a removal drops the record of its hostname.
pub open spec fn updated_table(s: Seq<NodeView>, kind: UpdateType, r: NodeView) -> Seq<NodeView> {
    match kind {
        UpdateType::Remove => table_remove(s, r.name),
        _ => table_insert(s, r),
    }
}

/// Applies a membership change to a backup table.
pub fn apply_update(backup: &mut NodeTable, kind: UpdateType, pc: PCInfo)
    requires
        old(backup).wf(),
    ensures
        final(backup).wf(),
        final(backup)@ == updated_table(old(backup)@, kind, pc@),
{
    match kind {
        UpdateType::Remove => {
            backup.remove(pc.get_name());
        },
        _ => {
            backup.insert(pc);
        },
    }
}

/// Manager side of replication: applies a membership change to the backup
/// table, advances the table version, and returns the snapshot datagram of the
/// whole table under the new version, to broadcast to every follower.
pub fn replicate_update(
    backup: &mut NodeTable,
    signals: &mut Signals,
    kind: UpdateType,
    pc: PCInfo,
) -> (r: Vec<u8>)
    requires
        old(backup).wf(),
    ensures
        final(backup).wf(),
        final(backup)@ == updated_table(old(backup)@, kind, pc@),
        final(signals)@ == (SignalsView {
            table_version: next_version(old(signals)@.table_version),
            ..old(signals)@
        }),
        r@ == snapshot_bytes(final(signals)@.table_version, final(backup)@),
        final(backup)@.len() < 65536 ==> parse_snapshot(r@) == Some(
            (final(backup)@, final(signals)@.table_version),
        ),
{
    let version = signals.update_table_version();
    apply_update(backup, kind, pc);
    make_snapshot(version, backup)
}

/// The backup table and version after a snapshot datagram arrives: those it
/// carries when it decodes, the old ones when it does not. The stored version
/// is overwritten whatever it was.
pub open spec fn snapshot_outcome(table: Seq<NodeView>, version: u32, p: Seq<u8>) -> (Seq<NodeView>, u32) {
    match parse_snapshot(p) {
        Some(t) => t,
        None => (table, version),
    }
}

/// Follower side of replication: replaces the backup table and the table
/// version with those of a snapshot datagram; `false`, with nothing changed,
/// when the datagram does not decode.
pub fn apply_snapshot(backup: &mut NodeTable, signals: &mut Signals, packet: &[u8]) -> (r: bool)
    requires
        old(backup).wf(),
    ensures
        final(backup).wf(),
        r == parse_snapshot(packet@) is Some,
        (final(backup)@, final(signals)@.table_version) == snapshot_outcome(
            old(backup)@,
            old(signals)@.table_version,
            packet@,
        ),
        final(signals)@ == (SignalsView { table_version: final(signals)@.table_version, ..old(signals)@ }),
{
    match receive_update(packet) {
        Ok((table, version)) => {
            *backup = table;
            signals.overwrite_table_version(version);
            true
        },
        Err(_) => false,
    }
}

/// Applying the same snapshot datagram twice leaves the same backup table and
/// version as applying it once.
pub proof fn lemma_snapshot_idempotent(table: Seq<NodeView>, version: u32, p: Seq<u8>)
    ensures
        snapshot_outcome(
            snapshot_outcome(table, version, p).0,
            snapshot_outcome(table, version, p).1,
            p,
        ) == snapshot_outcome(table, version, p),
{
}

/// The live store of a node that has just become manager: every backup
/// record but its own, with the manager flag cleared.
pub open spec fn promoted(backup: Seq<NodeView>, own: Seq<char>) -> Seq<NodeView> {
    flags_cleared(backup, own).filter(|v: NodeView| v.name != own)
}

/// Follower to manager: clears the manager flag on every backup record but
/// the node's own, and fills the live store with those records, its own left
/// out. The membership-changed notice is raised when the store is not empty.
pub fn promote(backup: &mut NodeTable, own_name: &String, store: &mut NodeTable, signals: &mut Signals)
    requires
        old(backup).wf(),
    ensures
        final(backup).wf(),
        final(store).wf(),
        final(backup)@ == flags_cleared(old(backup)@, own_name@),
        final(store)@ == promoted(old(backup)@, own_name@),
        final(signals)@ == (SignalsView {
            update: old(signals)@.update || final(store)@.len() > 0,
            ..old(signals)@
        }),
{
    backup.clear_manager_flags(own_name);
    let mut live = backup.clone();
    let c = Criterion::NamedOtherThan(own_name.clone());
    live.retain(&c);
    assert((|v: NodeView| keeps(c, v)) =~= (|v: NodeView| v.name != own_name@));
    *store = live;
    if !store.is_empty() {
        signals.send_update();
    }
}

/// A record with its manager flag cleared.
pub open spec fn unflagged(v: NodeView) -> NodeView {
    NodeView { is_manager: false, ..v }
}

/// Role-transition reconciliation: once a node becomes manager, its live
/// store holds exactly the other records of its backup table, each with the
/// manager flag cleared, and not its own record.
pub proof fn lemma_promotion_reconciles(backup: Seq<NodeView>, own: Seq<char>)
    ensures
        forall|i: int|
            0 <= i < promoted(backup, own).len() ==> !(#[trigger] promoted(backup, own)[i]).is_manager
                && promoted(backup, own)[i].name != own,
        forall|v: NodeView|
            backup.contains(v) && v.name != own ==> #[trigger] promoted(backup, own).contains(
                unflagged(v),
            ),
        forall|w: NodeView|
            #[trigger] promoted(backup, own).contains(w) ==> exists|v: NodeView|
                backup.contains(v) && v.name != own && w == unflagged(v),
{
    let fc = flags_cleared(backup, own);
    let pred = |v: NodeView| v.name != own;
    let p = promoted(backup, own);
    assert forall|w: NodeView| #[trigger] p.contains(w) implies exists|v: NodeView|
        backup.contains(v) && v.name != own && w == unflagged(v) by {
        fc.lemma_filter_contains_rev(pred, w);
        let j = choose|j: int| 0 <= j < fc.len() && fc[j] == w;
        let i = choose|i: int| 0 <= i < p.len() && p[i] == w;
        fc.lemma_filter_pred(pred, i);
        assert(backup.contains(backup[j]) && backup[j].name != own && w == unflagged(backup[j]));
    }
    assert forall|i: int| 0 <= i < p.len() implies !(#[trigger] p[i]).is_manager && p[i].name
        != own by {
        fc.lemma_filter_pred(pred, i);
        assert(p.contains(p[i]));
        fc.lemma_filter_contains_rev(pred, p[i]);
    }
    assert forall|v: NodeView| backup.contains(v) && v.name != own implies #[trigger] p.contains(
        unflagged(v),
    ) by {
        let j = choose|j: int| 0 <= j < backup.len() && backup[j] == v;
        assert(fc[j] == unflagged(v));
        fc.lemma_filter_contains(pred, j);
    }
}

/// Uniqueness of the manager, as far as one node's own state reaches: a node
/// that wins an election and then takes over its backup table holds the
/// manager role itself and no record in its live store is flagged as manager;
/// a node that gives the role up keeps only records flagged as manager.
pub proof fn lemma_local_manager_unique(
    s: SignalsView,
    backup: Seq<NodeView>,
    store: Seq<NodeView>,
    own: Seq<char>,
)
    ensures
        concluded(s, true).is_manager,
        forall|i: int|
            0 <= i < promoted(backup, own).len() ==> !(#[trigger] promoted(backup, own)[i]).is_manager,
        forall|i: int|
            0 <= i < managers_only(store).len() ==> (#[trigger] managers_only(store)[i]).is_manager,
{
    lemma_promotion_reconciles(backup, own);
    let pred = |v: NodeView| v.is_manager;
    assert forall|i: int| 0 <= i < store.filter(pred).len() implies (#[trigger] store.filter(
        pred,
    )[i]).is_manager by {
        store.lemma_filter_pred(pred, i);
    }
}

/// Manager to follower: keeps in the live store only the records flagged as
/// manager. The membership-changed notice is raised when the store changed.
pub fn demote(store: &mut NodeTable, signals: &mut Signals)
    requires
        old(store).wf(),
    ensures
        final(store).wf(),
        final(store)@ == managers_only(old(store)@),
        final(signals)@ == (SignalsView {
            update: old(signals)@.update || final(store)@.len() != old(store)@.len(),
            ..old(signals)@
        }),
{
    let before = store.len();
    let c = Criterion::Managers;
    store.retain(&c);
    assert((|v: NodeView| keeps(c, v)) =~= (|v: NodeView| v.is_manager));
    if store.len() != before {
        signals.send_update();
    }
}

/// Carries out a role change seen since the last pass: promotion when the node
/// became manager, demotion when it stopped being one, nothing otherwise.
/// Returns the role now in force, to compare against on the next pass.
pub fn reconcile_role(
    was_manager: bool,
    backup: &mut NodeTable,
    own_name: &String,
    store: &mut NodeTable,
    signals: &mut Signals,
) -> (r: bool)
    requires
        old(backup).wf(),
        old(store).wf(),
    ensures
        r == old(signals)@.is_manager,
        final(backup).wf(),
        final(store).wf(),
        was_manager == old(signals)@.is_manager ==> final(backup)@ == old(backup)@ && final(store)@
            == old(store)@ && final(signals)@ == old(signals)@,
        !was_manager && old(signals)@.is_manager ==> final(backup)@ == flags_cleared(
            old(backup)@,
            own_name@,
        ) && final(store)@ == promoted(old(backup)@, own_name@) && final(signals)@ == (SignalsView {
            update: old(signals)@.update || final(store)@.len() > 0,
            ..old(signals)@
        }),
        was_manager && !old(signals)@.is_manager ==> final(backup)@ == old(backup)@ && final(store)@
            == managers_only(old(store)@) && final(signals)@ == (SignalsView {
            update: old(signals)@.update || final(store)@.len() != old(store)@.len(),
            ..old(signals)@
        }),
{
    let now = signals.is_manager();
    if was_manager != now {
        if now {
            promote(backup, own_name, store, signals);
        } else {
            demote(store, signals);
        }
    }
    now
}

} // verus!
