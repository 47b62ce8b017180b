//! Node records: one member of the cluster, and its wire encoding.

use vstd::prelude::*;
use vstd::utf8::{
    decode_utf8, encode_utf8, encode_utf8_decode_utf8, encode_utf8_valid_utf8, valid_utf8,
};
use crate::text::string_from_utf8;
use crate::wire::{
    be_bytes, be_value, copy_range, lemma_be_bytes_len, lemma_be_round_trip, pow256, push_all,
    push_be, read_be,
};

verus! {

/// Whether a member answers status requests.
#[derive(Debug, PartialEq, Eq, Structural, Clone, Copy)]
pub enum PCStatus {
    Online,
    Offline,
}

/// The wire code of a status.
pub open spec fn status_code(s: PCStatus) -> u8 {
    match s {
        PCStatus::Online => 0x01,
        PCStatus::Offline => 0x02,
    }
}

/// The status a wire code stands for, if any.
pub open spec fn status_of_code(b: u8) -> Option<PCStatus> {
    if b == 0x01 {
        Some(PCStatus::Online)
    } else if b == 0x02 {
        Some(PCStatus::Offline)
    } else {
        None
    }
}

impl PCStatus {
    /// The status of a wire code; `Err` for a code that names none.
    pub fn try_from(value: u8) -> (r: Result<PCStatus, ()>)
        ensures
            r is Ok <==> status_of_code(value) is Some,
            r is Ok ==> status_of_code(value) == Some(r->Ok_0),
    {
        if value == 0x01 {
            Ok(PCStatus::Online)
        } else if value == 0x02 {
            Ok(PCStatus::Offline)
        } else {
            Err(())
        }
    }

    /// The wire code of this status.
    pub fn code(&self) -> (r: u8)
        ensures
            r == status_code(*self),
    {
        match self {
            PCStatus::Online => 0x01,
            PCStatus::Offline => 0x02,
        }
    }
}

/// What a node record holds, as mathematical values.
pub struct NodeView {
    pub name: Seq<char>,
    pub mac: Seq<u8>,
    pub ip: Seq<u8>,
    pub status: PCStatus,
    pub is_manager: bool,
}

/// One member of the cluster: hostname, hardware address, IPv4 address,
/// status, and whether it is the manager.
#[derive(Debug)]
pub struct PCInfo {
    name: String,
    mac: [u8; 6],
    ip: [u8; 4],
    status: PCStatus,
    is_manager: bool,
}

impl View for PCInfo {
    type V = NodeView;

    closed spec fn view(&self) -> NodeView {
        NodeView {
            name: self.name@,
            mac: self.mac@,
            ip: self.ip@,
            status: self.status,
            is_manager: self.is_manager,
        }
    }
}

impl Clone for PCInfo {
    fn clone(&self) -> (r: PCInfo)
        ensures
            r@ == self@,
    {
        PCInfo {
            name: self.name.clone(),
            mac: self.mac,
            ip: self.ip,
            status: self.status,
            is_manager: self.is_manager,
        }
    }
}

/// Number of bytes in front of the hostname that give its length.
pub const NAME_LENGTH_BYTES: usize = 8;

/// Bytes after the hostname: hardware address, IPv4 address, status, flag.
pub const RECORD_TAIL_BYTES: usize = 12;

/// A record on the wire: hostname length on eight bytes, the hostname in
/// UTF-8, the hardware address, the IPv4 address, the status code and the
/// manager flag.
pub open spec fn record_bytes(r: NodeView) -> Seq<u8> {
    be_bytes(encode_utf8(r.name).len(), 8) + encode_utf8(r.name) + r.mac + r.ip
        + seq![status_code(r.status), if r.is_manager { 1u8 } else { 0u8 }]
}

/// The record at the start of `b` and the number of bytes it takes, if `b`
/// starts with a whole, well-formed record.
pub open spec fn decode_record(b: Seq<u8>) -> Option<(NodeView, nat)> {
    if b.len() < 8 {
        None
    } else {
        let n = be_value(b.subrange(0, 8)) as int;
        if b.len() < 8 + n + 12 {
            None
        } else {
            let name_bytes = b.subrange(8, 8 + n);
            let status = status_of_code(b[8 + n + 10]);
            if !valid_utf8(name_bytes) || status is None {
                None
            } else {
                Some(
                    (
                        NodeView {
                            name: decode_utf8(name_bytes),
                            mac: b.subrange(8 + n, 8 + n + 6),
                            ip: b.subrange(8 + n + 6, 8 + n + 10),
                            status: status->Some_0,
                            is_manager: b[8 + n + 11] == 1,
                        },
                        (8 + n + 12) as nat,
                    ),
                )
            }
        }
    }
}

/// The UTF-8 text of `b` from `start` up to `end`, if it is valid.
pub fn text_from_range(b: &[u8], start: usize, end: usize) -> (r: Option<String>)
    requires
        start <= end <= b@.len(),
    ensures
        r is Some <==> valid_utf8(b@.subrange(start as int, end as int)),
        r is Some ==> r->Some_0@ == decode_utf8(b@.subrange(start as int, end as int)),
{
    string_from_utf8(copy_range(b, start, end))
}

/// A record that the wire encoding carries whole: a six-byte hardware
/// address, a four-byte IPv4 address, and a hostname whose UTF-8 length fits
/// in the eight-byte length field.
pub open spec fn encodable(r: NodeView) -> bool {
    r.mac.len() == 6 && r.ip.len() == 4 && encode_utf8(r.name).len() < pow256(8)
}

/// Decoding the encoding of a record, whatever follows it, gives the record
/// back with the length of its encoding.
pub proof fn lemma_record_round_trip(r: NodeView, rest: Seq<u8>)
    requires
        encodable(r),
    ensures
        decode_record(record_bytes(r) + rest) == Some((r, record_bytes(r).len())),
{
    let name = encode_utf8(r.name);
    let n = name.len() as int;
    let b = record_bytes(r) + rest;
    lemma_be_bytes_len(name.len(), 8);
    lemma_be_round_trip(name.len(), 8);
    encode_utf8_valid_utf8(r.name);
    encode_utf8_decode_utf8(r.name);
    assert(b.subrange(0, 8) =~= be_bytes(name.len(), 8));
    assert(b.subrange(8, 8 + n) =~= name);
    assert(b.subrange(8 + n, 8 + n + 6) =~= r.mac);
    assert(b.subrange(8 + n + 6, 8 + n + 10) =~= r.ip);
    assert(b[8 + n + 10] == status_code(r.status));
    assert(b[8 + n + 11] == if r.is_manager { 1u8 } else { 0u8 });
    let d = decode_record(b)->Some_0.0;
    assert(d == r);
}

impl PCInfo {
    pub fn new(name: String, mac: [u8; 6], ip: [u8; 4], status: PCStatus, is_manager: bool) -> (r:
        PCInfo)
        ensures
            r@ == (NodeView { name: name@, mac: mac@, ip: ip@, status, is_manager }),
    {
        PCInfo { name, mac, ip, status, is_manager }
    }

    /// Decodes the record at the start of `bytes`, with the number of bytes it
    /// takes; `Err` when the bytes are cut short, the hostname is not UTF-8 or
    /// the status code is unknown.
    pub fn from_bytes(bytes: &[u8]) -> (r: Result<(PCInfo, usize), ()>)
        ensures
            r is Ok <==> decode_record(bytes@) is Some,
            r is Ok ==> decode_record(bytes@) == Some((r->Ok_0.0@, r->Ok_0.1 as nat)),
    {
        let len = bytes.len();
        if len < NAME_LENGTH_BYTES {
            return Err(());
        }
        let name_len = read_be(bytes, 0, NAME_LENGTH_BYTES);
        if len < NAME_LENGTH_BYTES + RECORD_TAIL_BYTES {
            return Err(());
        }
        let room: u64 = (len - NAME_LENGTH_BYTES - RECORD_TAIL_BYTES) as u64;
        if name_len > room {
            return Err(());
        }
        let name_len = name_len as usize;
        let mut used: usize = NAME_LENGTH_BYTES;
        let name = match text_from_range(bytes, used, used + name_len) {
            Some(name) => name,
            None => return Err(()),
        };
        used = used + name_len;
        let mac: [u8; 6] = [
            bytes[used],
            bytes[used + 1],
            bytes[used + 2],
            bytes[used + 3],
            bytes[used + 4],
            bytes[used + 5],
        ];
        used = used + 6;
        let ip: [u8; 4] = [bytes[used], bytes[used + 1], bytes[used + 2], bytes[used + 3]];
        used = used + 4;
        let status = match PCStatus::try_from(bytes[used]) {
            Ok(status) => status,
            Err(_) => return Err(()),
        };
        used = used + 1;
        let is_manager = bytes[used] == 0x01;
        used = used + 1;
        let pc = PCInfo { name, mac, ip, status, is_manager };
        proof {
            let b = bytes@;
            let n = be_value(b.subrange(0, 8)) as int;
            assert(pc@.mac =~= b.subrange(8 + n, 8 + n + 6));
            assert(pc@.ip =~= b.subrange(8 + n + 6, 8 + n + 10));
        }
        Ok((pc, used))
    }

    /// The wire encoding of this record.
    pub fn to_bytes(&self) -> (r: Vec<u8>)
        ensures
            r@ == record_bytes(self@),
            encodable(self@),
    {
        let mut bytes: Vec<u8> = Vec::new();
        let name_bytes = self.name.as_str().as_bytes();
        proof {
            crate::wire::lemma_pow256_facts();
        }
        push_be(&mut bytes, name_bytes.len() as u64, NAME_LENGTH_BYTES);
        push_all(&mut bytes, name_bytes);
        push_all(&mut bytes, self.mac.as_slice());
        push_all(&mut bytes, self.ip.as_slice());
        bytes.push(self.status.code());
        bytes.push(if self.is_manager { 0x01 } else { 0x00 });
        assert(bytes@ =~= record_bytes(self@));
        bytes
    }

    pub fn get_name(&self) -> (r: &String)
        ensures
            r@ == self@.name,
    {
        &self.name
    }

    pub fn get_hostname(&self) -> (r: &String)
        ensures
            r@ == self@.name,
    {
        &self.name
    }

    pub fn get_mac(&self) -> (r: &[u8; 6])
        ensures
            r@ == self@.mac,
    {
        &self.mac
    }

    pub fn get_ip(&self) -> (r: &[u8; 4])
        ensures
            r@ == self@.ip,
    {
        &self.ip
    }

    pub fn get_status(&self) -> (r: &PCStatus)
        ensures
            *r == self@.status,
    {
        &self.status
    }

    pub fn get_is_manager(&self) -> (r: &bool)
        ensures
            *r == self@.is_manager,
    {
        &self.is_manager
    }

    pub fn set_is_manager(&mut self, is_manager: bool)
        ensures
            final(self)@ == (NodeView { is_manager, ..old(self)@ }),
    {
        self.is_manager = is_manager;
    }

    pub fn is_manager(&self) -> (r: bool)
        ensures
            r == self@.is_manager,
    {
        self.is_manager
    }

    pub fn set_status(&mut self, status: PCStatus)
        ensures
            final(self)@ == (NodeView { status, ..old(self)@ }),
    {
        self.status = status;
    }

    pub fn is_online(&self) -> (r: bool)
        ensures
            r == (self@.status == PCStatus::Online),
    {
        self.status == PCStatus::Online
    }

    pub fn is_offline(&self) -> (r: bool)
        ensures
            r == (self@.status == PCStatus::Offline),
    {
        self.status == PCStatus::Offline
    }
}

} // verus!
