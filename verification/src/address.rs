//! Network addresses and the text forms they are read from and written in.
//!
//! An IPv4 address is written as four decimal fields joined by dots, each
//! between 0 and 255 and without a leading zero. An IPv6 address is written
//! as eight groups of one to four hexadecimal digits joined by colons; one
//! run of zero groups may be left out and marked by a double colon, and the
//! last two groups may be written together as an IPv4 address.

use vstd::prelude::*;
use vstd::slice::slice_subrange;
use vstd::string::*;

use crate::decimal::{
    all_digits, decimal_string, decimal_text, decimal_value, lemma_decimal_round_trip,
    parse_decimal, ZERO,
};
use crate::text::{ascii, lemma_split_join, lemma_split_single, split, split_fields, views};

verus! {

/// The dot between the fields of an IPv4 address.
pub const DOT: u8 = 46;

/// The colon between the groups of an IPv6 address.
pub const COLON: u8 = 58;

/// What `ip_to_string` writes for an address it has no text form for.
pub const IPV6_UNSUPPORTED: &'static str = "Ipv6 not supported";

/// An IPv4 address as its four octets, or an IPv6 address as its eight
/// 16-bit groups, both in network order.
#[derive(Clone, Copy, Debug, PartialEq, Eq)]
pub enum IpAddress {
    V4([u8; 4]),
    V6([u16; 8]),
}

impl IpAddress {
    /// Whether both addresses are IPv4 or both are IPv6.
    pub open spec fn same_family(self, other: IpAddress) -> bool {
        (self is V4) == (other is V4)
    }

    /// Tells whether both addresses are IPv4 or both are IPv6.
    pub fn is_same_family(&self, other: &IpAddress) -> (r: bool)
        ensures
            r == self.same_family(*other),
    {
        match (self, other) {
            (IpAddress::V4(_), IpAddress::V4(_)) => true,
            (IpAddress::V6(_), IpAddress::V6(_)) => true,
            _ => false,
        }
    }
}

/// An address and a port on it.
#[derive(Clone, Copy, Debug, PartialEq, Eq)]
pub struct SocketAddress {
    pub ip: IpAddress,
    pub port: u16,
}

/// Whether `s` writes one field of an IPv4 address.
pub open spec fn is_octet_text(s: Seq<u8>) -> bool {
    &&& 1 <= s.len() <= 3
    &&& all_digits(s)
    &&& (s.len() == 1 || s[0] != ZERO)
    &&& decimal_value(s) <= 255
}

/// The IPv4 address that `s` writes, if it writes one.
pub open spec fn ipv4_from_text(s: Seq<u8>) -> Option<[u8; 4]> {
    let f = split(s, DOT);
    if f.len() == 4 && is_octet_text(f[0]) && is_octet_text(f[1]) && is_octet_text(f[2])
        && is_octet_text(f[3]) {
        Some(
            [
                decimal_value(f[0]) as u8,
                decimal_value(f[1]) as u8,
                decimal_value(f[2]) as u8,
                decimal_value(f[3]) as u8,
            ],
        )
    } else {
        None
    }
}

/// Reads one field of an IPv4 address.
fn parse_octet(field: &[u8]) -> (r: Option<u8>)
    ensures
        r matches Some(v) ==> is_octet_text(field@) && v == decimal_value(field@),
        r is None ==> !is_octet_text(field@),
{
    if field.len() == 0 || field.len() > 3 {
        return None;
    }
    if field.len() > 1 && field[0] == ZERO {
        return None;
    }
    match parse_decimal(field, 255) {
        Some(n) => Some(n as u8),
        None => None,
    }
}

/// Reads an IPv4 address from its dotted decimal form.
pub fn parse_ipv4(bytes: &[u8]) -> (r: Option<[u8; 4]>)
    ensures
        r == ipv4_from_text(bytes@),
{
    let fields = split_fields(bytes, DOT);
    if fields.len() != 4 {
        return None;
    }
    assert(views(fields@)[0] == fields@[0]@);
    assert(views(fields@)[1] == fields@[1]@);
    assert(views(fields@)[2] == fields@[2]@);
    assert(views(fields@)[3] == fields@[3]@);
    let a: u8 = match parse_octet(fields[0]) {
        Some(v) => v,
        None => { return None; },
    };
    let b: u8 = match parse_octet(fields[1]) {
        Some(v) => v,
        None => { return None; },
    };
    let c: u8 = match parse_octet(fields[2]) {
        Some(v) => v,
        None => { return None; },
    };
    let d: u8 = match parse_octet(fields[3]) {
        Some(v) => v,
        None => { return None; },
    };
    Some([a, b, c, d])
}

/// The value of a hexadecimal digit, in either case.
pub open spec fn hex_digit(b: u8) -> Option<nat> {
    if 48 <= b <= 57 {
        Some((b - 48) as nat)
    } else if 97 <= b <= 102 {
        Some((b - 87) as nat)
    } else if 65 <= b <= 70 {
        Some((b - 55) as nat)
    } else {
        None
    }
}

/// Whether every byte of `s` is a hexadecimal digit.
pub open spec fn all_hex(s: Seq<u8>) -> bool {
    forall|i: int| 0 <= i < s.len() ==> hex_digit(#[trigger] s[i]) is Some
}

/// The number that a run of hexadecimal digits denotes, most significant
/// digit first.
pub open spec fn hex_value(s: Seq<u8>) -> nat
    decreases s.len(),
{
    if s.len() == 0 {
        0
    } else {
        hex_value(s.drop_last()) * 16 + match hex_digit(s.last()) {
            Some(d) => d,
            None => 0,
        }
    }
}

/// Whether `s` writes one group of an IPv6 address.
pub open spec fn is_group_text(s: Seq<u8>) -> bool {
    1 <= s.len() <= 4 && all_hex(s)
}

/// Whether every field writes a group of an IPv6 address.
pub open spec fn all_groups(fields: Seq<Seq<u8>>) -> bool {
    forall|i: int| 0 <= i < fields.len() ==> is_group_text(#[trigger] fields[i])
}

/// The 16-bit number whose high byte is `hi` and whose low byte is `lo`.
pub open spec fn be16(hi: u8, lo: u8) -> u16 {
    (hi as int * 256 + lo as int) as u16
}

/// The groups that `fields` write, each field being one group.
pub open spec fn hex_groups(fields: Seq<Seq<u8>>) -> Option<Seq<u16>> {
    if all_groups(fields) {
        Some(Seq::new(fields.len(), |i: int| hex_value(fields[i]) as u16))
    } else {
        None
    }
}

/// The groups that `fields` write at the end of an address, where the last
/// field may be an IPv4 address that stands for two groups.
pub open spec fn closing_groups(fields: Seq<Seq<u8>>) -> Option<Seq<u16>> {
    match ipv4_from_text(fields.last()) {
        Some(a) => match hex_groups(fields.drop_last()) {
            Some(groups) => Some(groups.push(be16(a[0], a[1])).push(be16(a[2], a[3]))),
            None => None,
        },
        None => hex_groups(fields),
    }
}

/// The groups written in `s`, joined by single colons; none if `s` is empty.
/// Only where `closing` holds may the last of them be written as an IPv4
/// address.
pub open spec fn group_list(s: Seq<u8>, closing: bool) -> Option<Seq<u16>> {
    if s.len() == 0 {
        Some(Seq::<u16>::empty())
    } else if closing {
        closing_groups(split(s, COLON))
    } else {
        hex_groups(split(s, COLON))
    }
}

/// The first place at or after `from` where two colons follow each other in
/// `s`, or the length of `s` if there is none.
pub open spec fn find_double_colon(s: Seq<u8>, from: int) -> int
    decreases s.len() - from,
{
    if from < 0 || from + 1 >= s.len() {
        s.len() as int
    } else if s[from] == COLON && s[from + 1] == COLON {
        from
    } else {
        find_double_colon(s, from + 1)
    }
}

/// The eight groups of the IPv6 address that `s` writes, if it writes one.
/// Without a double colon `s` holds all eight groups. With one, the groups
/// before and after it are at most seven, and zero groups fill the gap.
pub open spec fn ipv6_groups(s: Seq<u8>) -> Option<Seq<u16>> {
    let k = find_double_colon(s, 0);
    if k >= s.len() {
        match group_list(s, true) {
            Some(g) => if g.len() == 8 {
                Some(g)
            } else {
                None
            },
            None => None,
        }
    } else {
        match (
            group_list(s.subrange(0, k), false),
            group_list(s.subrange(k + 2, s.len() as int), true),
        ) {
            (Some(head), Some(tail)) => if head.len() + tail.len() <= 7 {
                Some(
                    head + Seq::new((8 - head.len() - tail.len()) as nat, |i: int| 0u16) + tail,
                )
            } else {
                None
            },
            _ => None,
        }
    }
}

/// The IPv6 address that `s` writes, if it writes one.
pub open spec fn ipv6_from_text(s: Seq<u8>) -> Option<[u16; 8]> {
    match ipv6_groups(s) {
        Some(g) => Some([g[0], g[1], g[2], g[3], g[4], g[5], g[6], g[7]]),
        None => None,
    }
}

/// Reads one group of an IPv6 address.
fn parse_group(field: &[u8]) -> (r: Option<u16>)
    ensures
        r matches Some(v) ==> is_group_text(field@) && v == hex_value(field@),
        r is None ==> !is_group_text(field@),
{
    if field.len() == 0 || field.len() > 4 {
        return None;
    }
    let mut value: u32 = 0;
    let mut i: usize = 0;
    assert(field@.subrange(0, 0) =~= Seq::<u8>::empty());
    while i < field.len()
        invariant
            i <= field.len() <= 4,
            all_hex(field@.subrange(0, i as int)),
            value == hex_value(field@.subrange(0, i as int)),
            i == 0 ==> value == 0,
            i == 1 ==> value < 0x10,
            i == 2 ==> value < 0x100,
            i == 3 ==> value < 0x1000,
            i == 4 ==> value < 0x10000,
        decreases field.len() - i,
    {
        let b: u8 = field[i];
        let d: u32 = if 48 <= b && b <= 57 {
            (b - 48) as u32
        } else if 97 <= b && b <= 102 {
            (b - 87) as u32
        } else if 65 <= b && b <= 70 {
            (b - 55) as u32
        } else {
            assert(hex_digit(field@[i as int]) is None);
            return None;
        };
        let ghost longer = field@.subrange(0, i + 1);
        assert(longer.drop_last() =~= field@.subrange(0, i as int));
        assert(longer.last() == b);
        assert(all_hex(longer)) by {
            assert forall|j: int| 0 <= j < longer.len() implies hex_digit(
                #[trigger] longer[j],
            ) is Some by {
                if j < i {
                    assert(longer[j] == field@.subrange(0, i as int)[j]);
                }
            }
        }
        value = value * 16 + d;
        i += 1;
    }
    assert(field@.subrange(0, i as int) =~= field@);
    Some(value as u16)
}

/// Reads the first `count` of `fields` as one group each.
fn parse_hex_groups(fields: &Vec<&[u8]>, count: usize) -> (r: Option<Vec<u16>>)
    requires
        count <= fields.len(),
    ensures
        r matches Some(v) ==> hex_groups(views(fields@).take(count as int)) == Some(v@),
        r is None ==> hex_groups(views(fields@).take(count as int)) is None,
{
    let ghost taken = views(fields@).take(count as int);
    let mut groups: Vec<u16> = Vec::new();
    let mut i: usize = 0;
    while i < count
        invariant
            i <= count <= fields.len(),
            taken == views(fields@).take(count as int),
            groups.len() == i,
            forall|j: int| 0 <= j < i ==> is_group_text(#[trigger] taken[j]),
            forall|j: int| 0 <= j < i ==> groups@[j] == hex_value(taken[j]) as u16,
        decreases count - i,
    {
        assert(taken[i as int] == fields@[i as int]@);
        match parse_group(fields[i]) {
            Some(v) => {
                groups.push(v);
            },
            None => {
                return None;
            },
        }
        i += 1;
    }
    assert(groups@ =~= Seq::new(taken.len(), |i: int| hex_value(taken[i]) as u16));
    Some(groups)
}

/// Reads groups joined by single colons.
fn parse_group_list(bytes: &[u8], closing: bool) -> (r: Option<Vec<u16>>)
    ensures
        r matches Some(v) ==> group_list(bytes@, closing) == Some(v@),
        r is None ==> group_list(bytes@, closing) is None,
{
    if bytes.len() == 0 {
        return Some(Vec::new());
    }
    let fields = split_fields(bytes, COLON);
    proof {
        crate::text::lemma_split_nonempty(bytes@, COLON);
        assert(views(fields@).take(fields.len() as int) =~= views(fields@));
        assert(views(fields@).take(fields.len() - 1) =~= views(fields@).drop_last());
        assert(views(fields@).last() == fields@[fields.len() - 1]@);
    }
    if closing {
        match parse_ipv4(fields[fields.len() - 1]) {
            Some(a) => {
                let mut groups = match parse_hex_groups(&fields, fields.len() - 1) {
                    Some(groups) => groups,
                    None => { return None; },
                };
                groups.push(pair(a[0], a[1]));
                groups.push(pair(a[2], a[3]));
                return Some(groups);
            },
            None => {},
        }
    }
    parse_hex_groups(&fields, fields.len())
}

/// Joins two bytes into one number, the high byte first.
fn pair(hi: u8, lo: u8) -> (r: u16)
    ensures
        r == be16(hi, lo),
{
    hi as u16 * 256 + lo as u16
}

/// Finds the first double colon in `bytes`.
fn first_double_colon(bytes: &[u8]) -> (k: usize)
    ensures
        k == find_double_colon(bytes@, 0),
        k <= bytes.len(),
        k < bytes.len() ==> k + 2 <= bytes.len(),
{
    if bytes.len() < 2 {
        return bytes.len();
    }
    let last: usize = bytes.len() - 1;
    let mut i: usize = 0;
    while i < last
        invariant
            i <= last,
            last + 1 == bytes.len(),
            find_double_colon(bytes@, 0) == find_double_colon(bytes@, i as int),
        decreases last - i,
    {
        if bytes[i] == COLON && bytes[i + 1] == COLON {
            return i;
        }
        i += 1;
    }
    bytes.len()
}

/// Reads an IPv6 address from its text form.
pub fn parse_ipv6(bytes: &[u8]) -> (r: Option<[u16; 8]>)
    ensures
        r == ipv6_from_text(bytes@),
{
    let k = first_double_colon(bytes);
    if k >= bytes.len() {
        match parse_group_list(bytes, true) {
            Some(g) => {
                if g.len() == 8 {
                    Some([g[0], g[1], g[2], g[3], g[4], g[5], g[6], g[7]])
                } else {
                    None
                }
            },
            None => None,
        }
    } else {
        let head = match parse_group_list(slice_subrange(bytes, 0, k), false) {
            Some(g) => g,
            None => { return None; },
        };
        let tail = match parse_group_list(slice_subrange(bytes, k + 2, bytes.len()), true) {
            Some(g) => g,
            None => { return None; },
        };
        if head.len() > 7 || tail.len() > 7 - head.len() {
            return None;
        }
        let gap: usize = 8 - head.len() - tail.len();
        let mut g: Vec<u16> = Vec::new();
        let mut i: usize = 0;
        while i < head.len()
            invariant
                i <= head.len(),
                g@ == head@.subrange(0, i as int),
            decreases head.len() - i,
        {
            g.push(head[i]);
            assert(g@ =~= head@.subrange(0, i + 1));
            i += 1;
        }
        assert(g@ =~= head@);
        let mut j: usize = 0;
        while j < gap
            invariant
                j <= gap,
                g@ == head@ + Seq::new(j as nat, |i: int| 0u16),
            decreases gap - j,
        {
            g.push(0);
            assert(g@ =~= head@ + Seq::new((j + 1) as nat, |i: int| 0u16));
            j += 1;
        }
        let mut n: usize = 0;
        while n < tail.len()
            invariant
                n <= tail.len(),
                g@ == head@ + Seq::new(gap as nat, |i: int| 0u16) + tail@.subrange(0, n as int),
            decreases tail.len() - n,
        {
            g.push(tail[n]);
            assert(g@ =~= head@ + Seq::new(gap as nat, |i: int| 0u16) + tail@.subrange(
                0,
                n + 1,
            ));
            n += 1;
        }
        assert(tail@.subrange(0, n as int) =~= tail@);
        Some([g[0], g[1], g[2], g[3], g[4], g[5], g[6], g[7]])
    }
}

/// The address that `s` writes, if it writes one of either family.
pub open spec fn ip_from_text(s: Seq<u8>) -> Option<IpAddress> {
    match ipv4_from_text(s) {
        Some(a) => Some(IpAddress::V4(a)),
        None => match ipv6_from_text(s) {
            Some(g) => Some(IpAddress::V6(g)),
            None => None,
        },
    }
}

/// Reads an address of either family from its text form.
pub fn parse_ip(bytes: &[u8]) -> (r: Option<IpAddress>)
    ensures
        r == ip_from_text(bytes@),
{
    match parse_ipv4(bytes) {
        Some(a) => Some(IpAddress::V4(a)),
        None => match parse_ipv6(bytes) {
            Some(g) => Some(IpAddress::V6(g)),
            None => None,
        },
    }
}

/// The dotted decimal form of an IPv4 address.
pub open spec fn ipv4_text(a: [u8; 4]) -> Seq<char> {
    decimal_text(a[0] as nat) + seq!['.'] + decimal_text(a[1] as nat) + seq!['.'] + decimal_text(
        a[2] as nat,
    ) + seq!['.'] + decimal_text(a[3] as nat)
}

/// The text that stands for an address: the dotted decimal form of an IPv4
/// address, and a fixed notice for an IPv6 address.
pub open spec fn ip_text(ip: IpAddress) -> Seq<char> {
    match ip {
        IpAddress::V4(a) => ipv4_text(a),
        IpAddress::V6(_) => IPV6_UNSUPPORTED@,
    }
}

/// Writes an address as text.
pub fn ip_to_string(ip: IpAddress) -> (r: String)
    ensures
        r@ == ip_text(ip),
{
    match ip {
        IpAddress::V4(a) => {
            proof {
                reveal_strlit(".");
            }
            assert("."@ =~= seq!['.']);
            let mut r = decimal_string(a[0] as u32);
            r.append(".");
            r.append(decimal_string(a[1] as u32).as_str());
            r.append(".");
            r.append(decimal_string(a[2] as u32).as_str());
            r.append(".");
            r.append(decimal_string(a[3] as u32).as_str());
            r
        },
        IpAddress::V6(_) => String::from_str(IPV6_UNSUPPORTED),
    }
}

/// What `ip_to_string` writes for an IPv4 address, `parse_ip` reads back as
/// that address.
pub proof fn lemma_ipv4_round_trip(a: [u8; 4])
    ensures
        ip_from_text(ascii(ip_text(IpAddress::V4(a)))) == Some(IpAddress::V4(a)),
{
    let d0 = ascii(decimal_text(a[0] as nat));
    let d1 = ascii(decimal_text(a[1] as nat));
    let d2 = ascii(decimal_text(a[2] as nat));
    let d3 = ascii(decimal_text(a[3] as nat));
    lemma_decimal_round_trip(a[0] as nat);
    lemma_decimal_round_trip(a[1] as nat);
    lemma_decimal_round_trip(a[2] as nat);
    lemma_decimal_round_trip(a[3] as nat);
    let text = ascii(ipv4_text(a));
    assert(text =~= d0 + seq![DOT] + d1 + seq![DOT] + d2 + seq![DOT] + d3);
    lemma_split_single(d0, DOT);
    lemma_split_join(d0, DOT, d1);
    lemma_split_join(d0 + seq![DOT] + d1, DOT, d2);
    lemma_split_join(d0 + seq![DOT] + d1 + seq![DOT] + d2, DOT, d3);
    let fields = split(text, DOT);
    assert(fields =~= seq![d0, d1, d2, d3]);
    let read = ipv4_from_text(text)->0;
    assert(read =~= a);
}

} // verus!
