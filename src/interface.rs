//! The membership table as text, one padded line per member.

use vstd::prelude::*;
use crate::pcinfo::{NodeView, PCInfo, PCStatus};
use crate::table::NodeTable;
use crate::text::{push_char, push_str};
use vstd::std_specs::iter::IteratorSpec;

verus! {

/// `s` followed by spaces up to `width` characters; longer text stays whole.
pub open spec fn padded(s: Seq<char>, width: nat) -> Seq<char> {
    if s.len() >= width {
        s
    } else {
        s + Seq::new((width - s.len()) as nat, |i: int| ' ')
    }
}

/// One line of the table: four columns of 20, 21, 17 and 8 characters,
/// separated by a space.
pub open spec fn entry_text(name: Seq<char>, mac: Seq<char>, ip: Seq<char>, status: Seq<char>) -> Seq<char> {
    padded(name, 20) + seq![' '] + padded(mac, 21) + seq![' '] + padded(ip, 17) + seq![' ']
        + padded(status, 8) + seq!['\n']
}

/// The character of a decimal digit.
pub open spec fn digit_char(d: nat) -> char {
    ((48 + d) as u8) as char
}

/// The character of an uppercase hexadecimal digit.
pub open spec fn hex_char(d: nat) -> char {
    if d < 10 {
        ((48 + d) as u8) as char
    } else {
        ((55 + d) as u8) as char
    }
}

/// The decimal text of a number, without leading zeros.
pub open spec fn decimal(n: nat) -> Seq<char>
    decreases n,
{
    if n < 10 {
        seq![digit_char(n)]
    } else {
        decimal(n / 10).push(digit_char(n % 10))
    }
}

/// The dotted-decimal text of an IPv4 address.
pub open spec fn ip_text_of(ip: Seq<u8>) -> Seq<char> {
    decimal(ip[0] as nat) + seq!['.'] + decimal(ip[1] as nat) + seq!['.'] + decimal(ip[2] as nat)
        + seq!['.'] + decimal(ip[3] as nat)
}

/// Two uppercase hexadecimal digits of a byte.
pub open spec fn hex_byte(b: u8) -> Seq<char> {
    seq![hex_char((b / 16) as nat), hex_char((b % 16) as nat)]
}

/// A hardware address as six pairs of uppercase hexadecimal digits separated
/// by colons.
pub open spec fn mac_text_of(m: Seq<u8>) -> Seq<char> {
    hex_byte(m[0]) + seq![':'] + hex_byte(m[1]) + seq![':'] + hex_byte(m[2]) + seq![':']
        + hex_byte(m[3]) + seq![':'] + hex_byte(m[4]) + seq![':'] + hex_byte(m[5])
}

/// The name of a status.
pub open spec fn status_text_of(s: PCStatus) -> Seq<char> {
    match s {
        PCStatus::Online => seq!['O', 'n', 'l', 'i', 'n', 'e'],
        PCStatus::Offline => seq!['O', 'f', 'f', 'l', 'i', 'n', 'e'],
    }
}

/// The hostname column of a record: a manager's hostname is followed by " *".
pub open spec fn name_column(v: NodeView) -> Seq<char> {
    if v.is_manager {
        v.name + seq![' ', '*']
    } else {
        v.name
    }
}

/// The line of a record.
pub open spec fn record_line(v: NodeView) -> Seq<char> {
    entry_text(name_column(v), mac_text_of(v.mac), ip_text_of(v.ip), status_text_of(v.status))
}

/// The heading line: the hostname heading carries " *" on the manager.
pub open spec fn heading_text(is_manager: bool) -> Seq<char> {
    entry_text(
        if is_manager { "Hostname *"@ } else { "Hostname"@ },
        "MAC Address"@,
        "IPv4 Address"@,
        "Status"@,
    )
}

/// The whole table: the heading, then one line per record, in table order.
pub open spec fn table_text(s: Seq<NodeView>, is_manager: bool) -> Seq<char>
    decreases s.len(),
{
    if s.len() == 0 {
        heading_text(is_manager)
    } else {
        table_text(s.drop_last(), is_manager) + record_line(s.last())
    }
}

/// A text never has more characters than its UTF-8 encoding has bytes.
pub proof fn lemma_chars_within_bytes(chars: Seq<char>)
    ensures
        chars.len() <= vstd::utf8::encode_utf8(chars).len(),
    decreases chars.len(),
{
    if chars.len() > 0 {
        lemma_chars_within_bytes(chars.drop_first());
    }
}

/// Number of characters of `s`.
pub fn char_count(s: &str) -> (r: usize)
    ensures
        r == s@.len(),
{
    broadcast use vstd::string::group_string_axioms;

    let bytes = s.as_bytes().len();
    proof {
        lemma_chars_within_bytes(s@);
    }
    let mut it = s.chars();
    let mut count: usize = 0;
    loop
        invariant
            count <= s@.len() <= bytes,
            it.remaining() == s@.subrange(count as int, s@.len() as int),
        decreases s@.len() - count,
    {
        match it.next() {
            Some(_) => {
                count = count + 1;
            },
            None => {
                return count;
            },
        }
    }
}

/// Appends `s` padded with spaces to `width` characters.
fn push_padded(out: &mut String, s: &str, width: usize)
    ensures
        final(out)@ == old(out)@ + padded(s@, width as nat),
{
    push_str(out, s);
    let mut n = char_count(s);
    while n < width
        invariant
            s@.len() <= n <= width || (n == s@.len() && n >= width),
            out@ =~= old(out)@ + s@ + Seq::new((n - s@.len()) as nat, |i: int| ' '),
        decreases width - n,
    {
        push_char(out, ' ');
        n = n + 1;
    }
}

/// One line of the table, from the text of its four columns.
pub fn make_entry(name: &str, mac: &str, ip: &str, status: &str) -> (r: String)
    ensures
        r@ == entry_text(name@, mac@, ip@, status@),
{
    let mut out = String::new();
    push_padded(&mut out, name, 20);
    push_char(&mut out, ' ');
    push_padded(&mut out, mac, 21);
    push_char(&mut out, ' ');
    push_padded(&mut out, ip, 17);
    push_char(&mut out, ' ');
    push_padded(&mut out, status, 8);
    push_char(&mut out, '\n');
    assert(out@ =~= entry_text(name@, mac@, ip@, status@));
    out
}

/// The heading line of the table.
pub fn make_header(is_manager: bool) -> (r: String)
    ensures
        r@ == heading_text(is_manager),
{
    make_entry(
        if is_manager { "Hostname *" } else { "Hostname" },
        "MAC Address",
        "IPv4 Address",
        "Status",
    )
}

/// Appends the decimal text of a byte.
fn push_decimal(out: &mut String, n: u8)
    ensures
        final(out)@ == old(out)@ + decimal(n as nat),
{
    proof {
        reveal_with_fuel(decimal, 3);
    }
    if n >= 100 {
        push_char(out, (48 + n / 100) as char);
        push_char(out, (48 + (n / 10) % 10) as char);
        push_char(out, (48 + n % 10) as char);
        assert((n as nat / 10) / 10 == n as nat / 100);
    } else if n >= 10 {
        push_char(out, (48 + n / 10) as char);
        push_char(out, (48 + n % 10) as char);
    } else {
        push_char(out, (48 + n) as char);
    }
    assert(final(out)@ =~= old(out)@ + decimal(n as nat));
}

/// The dotted-decimal text of an IPv4 address.
pub fn ip_text(ip: &[u8; 4]) -> (r: String)
    ensures
        r@ == ip_text_of(ip@),
{
    let mut out = String::new();
    push_decimal(&mut out, ip[0]);
    push_char(&mut out, '.');
    push_decimal(&mut out, ip[1]);
    push_char(&mut out, '.');
    push_decimal(&mut out, ip[2]);
    push_char(&mut out, '.');
    push_decimal(&mut out, ip[3]);
    assert(out@ =~= ip_text_of(ip@));
    out
}

/// Relies on the `Display` of `mac_address::MacAddress`: each byte as two
/// uppercase hexadecimal digits, the six pairs separated by colons.
#[verifier::external_body]
fn mac_text(mac: &[u8; 6]) -> (r: String)
    ensures
        r@ == mac_text_of(mac@),
{
    mac_address::MacAddress::new(*mac).to_string()
}

/// The name of a status.
pub fn status_text(status: &PCStatus) -> (r: String)
    ensures
        r@ == status_text_of(*status),
{
    let mut out = String::new();
    match status {
        PCStatus::Online => {
            push_str(&mut out, "Online");
            proof {
                reveal_strlit("Online");
            }
        },
        PCStatus::Offline => {
            push_str(&mut out, "Offline");
            proof {
                reveal_strlit("Offline");
            }
        },
    }
    assert(out@ =~= status_text_of(*status));
    out
}

/// The line of a record in the table.
pub fn entry_to_string(pc_info: &PCInfo) -> (r: String)
    ensures
        r@ == record_line(pc_info@),
{
    let mut hostname = String::new();
    push_str(&mut hostname, pc_info.get_name().as_str());
    if pc_info.is_manager() {
        push_str(&mut hostname, " *");
        proof {
            reveal_strlit(" *");
        }
        assert(hostname@ =~= name_column(pc_info@));
    } else {
        assert(hostname@ =~= name_column(pc_info@));
    }
    let mac = mac_text(pc_info.get_mac());
    let ip = ip_text(pc_info.get_ip());
    let status = status_text(pc_info.get_status());
    make_entry(hostname.as_str(), mac.as_str(), ip.as_str(), status.as_str())
}

/// The whole table as text: the heading, then one line per record.
pub fn make_table(pc_map: &NodeTable, is_manager: bool) -> (r: String)
    ensures
        r@ == table_text(pc_map@, is_manager),
{
    let mut table = make_header(is_manager);
    let mut i: usize = 0;
    while i < pc_map.len()
        invariant
            i <= pc_map@.len(),
            table@ == table_text(pc_map@.subrange(0, i as int), is_manager),
        decreases pc_map@.len() - i,
    {
        let line = entry_to_string(pc_map.get_index(i));
        proof {
            assert(pc_map@.subrange(0, i + 1).drop_last() =~= pc_map@.subrange(0, i as int));
        }
        push_str(&mut table, line.as_str());
        i = i + 1;
    }
    assert(pc_map@.subrange(0, pc_map@.len() as int) =~= pc_map@);
    table
}

} // verus!
