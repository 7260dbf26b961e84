//! The transport engine's endpoint type: an IP socket address, held as
//! plain octets or 16-bit groups and a port, together with its grammar and
//! a verified parser from the configuration string forms `a.b.c.d:port`
//! and `[v6]:port`.
//!
//! The grammar follows the usual socket-address literals. An IPv4 address
//! is four dotted decimal octets, each `0..=255` written without leading
//! zeroes. An IPv6 address is up to eight groups of one to four
//! hexadecimal digits separated by `:`, with `::` standing for one or more
//! zero groups at most once, and optionally a trailing embedded IPv4
//! address in place of the last two groups. The port is decimal, fits in
//! 16 bits, and may carry leading zeroes. A zone or scope suffix (`%`)
//! is not part of the grammar and is rejected.
use crate::endpoint::Endpoint;
use crate::text::all_digits;
use crate::text::all_hex_digits;
use crate::text::digits_value;
use crate::text::find_char;
use crate::text::find_first;
use crate::text::hex_digit_value_exec;
use crate::text::hex_digits_value;
use crate::text::is_digit_exec;
use crate::text::is_hex_digit_exec;
use crate::text::lemma_find_char_bounds;
use crate::text::lemma_hex_digits_value_bound;
use crate::text::parse_port;
use crate::text::spec_parse_port;
use vstd::prelude::*;
use vstd::string::StrSliceExecFns;

verus! {

/// An IPv4 address as four plain octets.
#[derive(Clone, Copy, Debug, PartialEq, Eq, Structural)]
pub struct Ipv4Address {
    pub a: u8,
    pub b: u8,
    pub c: u8,
    pub d: u8,
}

/// An IPv6 address as eight plain 16-bit groups.
#[derive(Clone, Copy, Debug, PartialEq, Eq, Structural)]
pub struct Ipv6Address {
    pub g0: u16,
    pub g1: u16,
    pub g2: u16,
    pub g3: u16,
    pub g4: u16,
    pub g5: u16,
    pub g6: u16,
    pub g7: u16,
}

/// An IP address of either family.
#[derive(Clone, Copy, Debug, PartialEq, Eq, Structural)]
pub enum IpAddress {
    V4(Ipv4Address),
    V6(Ipv6Address),
}

/// A transport endpoint: an IP address and a port.
#[derive(Clone, Copy, Debug, PartialEq, Eq, Structural)]
pub struct SocketAddress {
    pub ip: IpAddress,
    pub port: u16,
}

impl View for Ipv4Address {
    type V = Ipv4Address;

    open spec fn view(&self) -> Ipv4Address {
        *self
    }
}

impl DeepView for Ipv4Address {
    type V = Ipv4Address;

    open spec fn deep_view(&self) -> Ipv4Address {
        *self
    }
}

impl View for Ipv6Address {
    type V = Ipv6Address;

    open spec fn view(&self) -> Ipv6Address {
        *self
    }
}

impl DeepView for Ipv6Address {
    type V = Ipv6Address;

    open spec fn deep_view(&self) -> Ipv6Address {
        *self
    }
}

impl View for SocketAddress {
    type V = SocketAddress;

    open spec fn view(&self) -> SocketAddress {
        *self
    }
}

impl DeepView for SocketAddress {
    type V = SocketAddress;

    open spec fn deep_view(&self) -> SocketAddress {
        *self
    }
}

impl Endpoint for SocketAddress {
    fn duplicate(&self) -> (r: Self) {
        *self
    }
}

/// Whether `s` is a valid dotted-decimal octet: one to three digits, no
/// leading zero, value at most 255.
pub open spec fn is_octet(s: Seq<char>) -> bool {
    &&& 1 <= s.len() <= 3
    &&& all_digits(s)
    &&& (s.len() > 1 ==> s[0] != '0')
    &&& digits_value(s) <= 255
}

/// The octet denoted by `s`, or `None` when `s` is not a valid octet.
pub open spec fn spec_parse_octet(s: Seq<char>) -> Option<u8> {
    if is_octet(s) {
        Some(digits_value(s) as u8)
    } else {
        None
    }
}

/// The IPv4 address denoted by `s`: four valid octets joined by `.`.
pub open spec fn spec_parse_ipv4(s: Seq<char>) -> Option<Ipv4Address> {
    match find_char(s, '.') {
        None => None,
        Some(i1) => match find_char(s.skip(i1 + 1), '.') {
            None => None,
            Some(r2) => {
                let i2 = i1 + 1 + r2;
                match find_char(s.skip(i2 + 1), '.') {
                    None => None,
                    Some(r3) => {
                        let i3 = i2 + 1 + r3;
                        match (
                            spec_parse_octet(s.subrange(0, i1)),
                            spec_parse_octet(s.subrange(i1 + 1, i2)),
                            spec_parse_octet(s.subrange(i2 + 1, i3)),
                            spec_parse_octet(s.skip(i3 + 1)),
                        ) {
                            (Some(a), Some(b), Some(c), Some(d)) => Some(
                                Ipv4Address { a, b, c, d },
                            ),
                            _ => None,
                        }
                    },
                }
            },
        },
    }
}

/// Whether `s` is a valid IPv6 group: one to four hexadecimal digits.
pub open spec fn is_hex_group(s: Seq<char>) -> bool {
    &&& 1 <= s.len() <= 4
    &&& all_hex_digits(s)
}

/// The group denoted by `s`, or `None` when `s` is not a valid group.
pub open spec fn spec_parse_hex_group(s: Seq<char>) -> Option<u16> {
    if is_hex_group(s) {
        Some(hex_digits_value(s) as u16)
    } else {
        None
    }
}

/// The two 16-bit groups an embedded IPv4 address stands for.
pub open spec fn ipv4_as_groups(ip: Ipv4Address) -> Seq<u16> {
    seq![
        ((ip.a as int) * 256 + (ip.b as int)) as u16,
        ((ip.c as int) * 256 + (ip.d as int)) as u16,
    ]
}

/// The groups denoted by a `:`-separated run of hexadecimal groups.
pub open spec fn spec_parse_hex_parts(s: Seq<char>) -> Option<Seq<u16>>
    decreases s.len(),
    via spec_parse_hex_parts_decreases
{
    match find_char(s, ':') {
        None => match spec_parse_hex_group(s) {
            Some(g) => Some(seq![g]),
            None => None,
        },
        Some(i) => match (spec_parse_hex_group(s.take(i)), spec_parse_hex_parts(s.skip(i + 1))) {
            (Some(g), Some(rest)) => Some(seq![g] + rest),
            _ => None,
        },
    }
}

#[via_fn]
proof fn spec_parse_hex_parts_decreases(s: Seq<char>) {
    lemma_find_char_bounds(s, ':');
}

/// The groups denoted by a `:`-separated run of hexadecimal groups whose
/// last part may instead be an embedded IPv4 address, worth two groups.
pub open spec fn spec_parse_tail_parts(s: Seq<char>) -> Option<Seq<u16>>
    decreases s.len(),
    via spec_parse_tail_parts_decreases
{
    match find_char(s, ':') {
        None => match spec_parse_hex_group(s) {
            Some(g) => Some(seq![g]),
            None => match spec_parse_ipv4(s) {
                Some(ip) => Some(ipv4_as_groups(ip)),
                None => None,
            },
        },
        Some(i) => match (spec_parse_hex_group(s.take(i)), spec_parse_tail_parts(s.skip(i + 1))) {
            (Some(g), Some(rest)) => Some(seq![g] + rest),
            _ => None,
        },
    }
}

#[via_fn]
proof fn spec_parse_tail_parts_decreases(s: Seq<char>) {
    lemma_find_char_bounds(s, ':');
}

/// The position of the first `::` in `s`, if any.
pub open spec fn find_double_colon(s: Seq<char>) -> Option<int>
    decreases s.len(),
{
    if s.len() < 2 {
        None
    } else if s[0] == ':' && s[1] == ':' {
        Some(0)
    } else {
        match find_double_colon(s.drop_first()) {
            Some(i) => Some(i + 1),
            None => None,
        }
    }
}

/// The address with these eight groups.
pub open spec fn ipv6_from_groups(g: Seq<u16>) -> Ipv6Address
    recommends
        g.len() == 8,
{
    Ipv6Address {
        g0: g[0],
        g1: g[1],
        g2: g[2],
        g3: g[3],
        g4: g[4],
        g5: g[5],
        g6: g[6],
        g7: g[7],
    }
}

/// The IPv6 address denoted by `s`: eight groups written out — the last
/// two possibly as an embedded IPv4 address — or fewer with one `::`
/// standing for the one or more zero groups that complete the eight.
pub open spec fn spec_parse_ipv6(s: Seq<char>) -> Option<Ipv6Address> {
    match find_double_colon(s) {
        None => match spec_parse_tail_parts(s) {
            Some(groups) => if groups.len() == 8 {
                Some(ipv6_from_groups(groups))
            } else {
                None
            },
            None => None,
        },
        Some(i) => {
            let front = if i == 0 {
                Some(Seq::<u16>::empty())
            } else {
                spec_parse_hex_parts(s.take(i))
            };
            let back = if i + 2 == s.len() {
                Some(Seq::<u16>::empty())
            } else {
                spec_parse_tail_parts(s.skip(i + 2))
            };
            match (front, back) {
                (Some(f), Some(b)) => if f.len() + b.len() <= 7 {
                    Some(
                        ipv6_from_groups(
                            f + Seq::new((8 - f.len() - b.len()) as nat, |j: int| 0u16) + b,
                        ),
                    )
                } else {
                    None
                },
                _ => None,
            }
        },
    }
}

/// The socket address denoted by `s`: either `a.b.c.d:port`, or a
/// bracketed IPv6 address `[v6]:port`.
pub open spec fn spec_parse_socket_addr(s: Seq<char>) -> Option<SocketAddress> {
    if s.len() > 0 && s[0] == '[' {
        match find_char(s, ']') {
            None => None,
            Some(j) => if j + 1 < s.len() && s[j + 1] == ':' {
                match (spec_parse_ipv6(s.subrange(1, j)), spec_parse_port(s.skip(j + 2))) {
                    (Some(ip), Some(port)) => Some(
                        SocketAddress { ip: IpAddress::V6(ip), port },
                    ),
                    _ => None,
                }
            } else {
                None
            },
        }
    } else {
        match find_char(s, ':') {
            None => None,
            Some(i) => match (spec_parse_ipv4(s.subrange(0, i)), spec_parse_port(s.skip(i + 1))) {
                (Some(ip), Some(port)) => Some(SocketAddress { ip: IpAddress::V4(ip), port }),
                _ => None,
            },
        }
    }
}

/// If `::` first occurs at position `i`, `find_double_colon` says so.
proof fn lemma_find_double_colon_from_witness(s: Seq<char>, i: int)
    requires
        0 <= i,
        i + 1 < s.len(),
        s[i] == ':',
        s[i + 1] == ':',
        forall|j: int| 0 <= j < i ==> !((#[trigger] s[j]) == ':' && s[j + 1] == ':'),
    ensures
        find_double_colon(s) == Some(i),
    decreases s.len(),
{
    if i > 0 {
        lemma_find_double_colon_from_witness(s.drop_first(), i - 1);
    }
}

/// If `::` occurs nowhere in `s`, `find_double_colon` says so.
proof fn lemma_find_double_colon_none(s: Seq<char>)
    requires
        forall|j: int| 0 <= j < s.len() - 1 ==> !((#[trigger] s[j]) == ':' && s[j + 1] == ':'),
    ensures
        find_double_colon(s) is None,
    decreases s.len(),
{
    if s.len() >= 2 {
        lemma_find_double_colon_none(s.drop_first());
    }
}

/// Finds the first `::` in `s`, as `find_double_colon` describes it.
fn find_first_double_colon(s: &str) -> (r: Option<usize>)
    ensures
        match r {
            Some(i) => find_double_colon(s@) == Some(i as int) && i + 2 <= s@.len(),
            None => find_double_colon(s@) is None,
        },
{
    let n = s.unicode_len();
    if n < 2 {
        return None;
    }
    let mut i: usize = 0;
    while i + 1 < n
        invariant
            0 <= i,
            i + 1 <= n,
            n == s@.len(),
            n >= 2,
            forall|j: int| 0 <= j < i ==> !((#[trigger] s@[j]) == ':' && s@[j + 1] == ':'),
        decreases n - i,
    {
        if s.get_char(i) == ':' && s.get_char(i + 1) == ':' {
            proof {
                lemma_find_double_colon_from_witness(s@, i as int);
            }
            return Some(i);
        }
        i = i + 1;
    }
    proof {
        lemma_find_double_colon_none(s@);
    }
    None
}

/// Parses a dotted-decimal octet, exactly as the octet grammar allows.
fn parse_octet(s: &str) -> (r: Option<u8>)
    ensures
        r == spec_parse_octet(s@),
{
    let n = s.unicode_len();
    if n == 0 || n > 3 {
        return None;
    }
    let c0 = s.get_char(0);
    if !is_digit_exec(c0) {
        return None;
    }
    let d0 = (c0 as u32 - '0' as u32) as u8;
    if n == 1 {
        proof {
            reveal_with_fuel(digits_value, 3);
            assert(s@.drop_last() =~= Seq::<char>::empty());
            assert(all_digits(s@));
            assert(digits_value(s@) == d0);
        }
        return Some(d0);
    }
    if c0 == '0' {
        return None;
    }
    let c1 = s.get_char(1);
    if !is_digit_exec(c1) {
        return None;
    }
    let d1 = (c1 as u32 - '0' as u32) as u8;
    if n == 2 {
        proof {
            reveal_with_fuel(digits_value, 4);
            assert(s@.drop_last().drop_last() =~= Seq::<char>::empty());
            assert(s@.drop_last().last() == s@[0]);
            assert(all_digits(s@));
            assert(digits_value(s@) == 10 * d0 + d1);
        }
        return Some(10 * d0 + d1);
    }
    let c2 = s.get_char(2);
    if !is_digit_exec(c2) {
        return None;
    }
    let d2 = (c2 as u32 - '0' as u32) as u8;
    let value: u16 = 100 * (d0 as u16) + 10 * (d1 as u16) + (d2 as u16);
    proof {
        reveal_with_fuel(digits_value, 5);
        assert(s@.drop_last().drop_last().drop_last() =~= Seq::<char>::empty());
        assert(s@.drop_last().drop_last().last() == s@[0]);
        assert(s@.drop_last().last() == s@[1]);
        assert(all_digits(s@));
        assert(digits_value(s@) == 100 * d0 + 10 * d1 + d2);
    }
    if value > 255 {
        None
    } else {
        Some(value as u8)
    }
}

/// Parses an IPv4 address literal, exactly as the dotted-quad grammar
/// allows.
fn parse_ipv4(s: &str) -> (r: Option<Ipv4Address>)
    ensures
        r == spec_parse_ipv4(s@),
{
    let n = s.unicode_len();
    let i1 = match find_first(s, '.') {
        Some(i) => i,
        None => {
            return None;
        },
    };
    let rest1 = s.substring_char(i1 + 1, n);
    proof {
        assert(rest1@ =~= s@.skip(i1 + 1));
    }
    let r2 = match find_first(rest1, '.') {
        Some(i) => i,
        None => {
            return None;
        },
    };
    let i2 = i1 + 1 + r2;
    let rest2 = s.substring_char(i2 + 1, n);
    proof {
        assert(rest2@ =~= s@.skip(i2 + 1));
    }
    let r3 = match find_first(rest2, '.') {
        Some(i) => i,
        None => {
            return None;
        },
    };
    let i3 = i2 + 1 + r3;
    let o1 = parse_octet(s.substring_char(0, i1));
    let o2 = parse_octet(s.substring_char(i1 + 1, i2));
    let o3 = parse_octet(s.substring_char(i2 + 1, i3));
    let o4 = parse_octet(s.substring_char(i3 + 1, n));
    proof {
        assert(s@.skip(i3 + 1) =~= s@.subrange(i3 + 1, n as int));
    }
    match (o1, o2, o3, o4) {
        (Some(a), Some(b), Some(c), Some(d)) => Some(Ipv4Address { a, b, c, d }),
        _ => None,
    }
}

/// Parses one IPv6 group, exactly as the group grammar allows.
fn parse_hex_group(s: &str) -> (r: Option<u16>)
    ensures
        r == spec_parse_hex_group(s@),
{
    let n = s.unicode_len();
    if n == 0 || n > 4 {
        return None;
    }
    let mut value: u16 = 0;
    let mut i: usize = 0;
    while i < n
        invariant
            0 <= i <= n,
            n == s@.len(),
            1 <= n <= 4,
            all_hex_digits(s@.take(i as int)),
            value == hex_digits_value(s@.take(i as int)),
            value <= 0xffff,
        decreases n - i,
    {
        let c = s.get_char(i);
        if !is_hex_digit_exec(c) {
            return None;
        }
        let d = hex_digit_value_exec(c);
        proof {
            lemma_hex_digits_value_bound(s@.take(i as int));
            assert(s@.take(i + 1).drop_last() =~= s@.take(i as int));
            assert(s@.take(i + 1).last() == s@[i as int]);
            assert(all_hex_digits(s@.take(i + 1)));
            assert(hex_digits_value(s@.take(i + 1)) == value * 16 + d);
        }
        value = value * 16 + d;
        i = i + 1;
    }
    proof {
        assert(s@.take(n as int) =~= s@);
    }
    Some(value)
}

/// Parses a `:`-separated run of IPv6 groups, exactly as
/// `spec_parse_hex_parts` denotes it.
fn parse_hex_parts(s: &str) -> (r: Option<Vec<u16>>)
    ensures
        match r {
            Some(v) => spec_parse_hex_parts(s@) == Some(v@),
            None => spec_parse_hex_parts(s@) is None,
        },
    decreases s@.len(),
{
    let n = s.unicode_len();
    match find_first(s, ':') {
        None => {
            match parse_hex_group(s) {
                Some(g) => {
                    let mut v: Vec<u16> = Vec::new();
                    v.push(g);
                    proof {
                        assert(v@ =~= seq![g]);
                    }
                    Some(v)
                },
                None => None,
            }
        },
        Some(i) => {
            let head = s.substring_char(0, i);
            let rest = s.substring_char(i + 1, n);
            proof {
                assert(head@ =~= s@.take(i as int));
                assert(rest@ =~= s@.skip(i + 1));
            }
            let g = match parse_hex_group(head) {
                Some(g) => g,
                None => {
                    return None;
                },
            };
            match parse_hex_parts(rest) {
                Some(mut v) => {
                    let ghost rest_groups = v@;
                    v.insert(0, g);
                    proof {
                        assert(v@ =~= seq![g] + rest_groups);
                    }
                    Some(v)
                },
                None => None,
            }
        },
    }
}

/// Parses a `:`-separated run of IPv6 groups whose last part may be an
/// embedded IPv4 address, exactly as `spec_parse_tail_parts` denotes it.
fn parse_tail_parts(s: &str) -> (r: Option<Vec<u16>>)
    ensures
        match r {
            Some(v) => spec_parse_tail_parts(s@) == Some(v@),
            None => spec_parse_tail_parts(s@) is None,
        },
    decreases s@.len(),
{
    let n = s.unicode_len();
    match find_first(s, ':') {
        None => {
            match parse_hex_group(s) {
                Some(g) => {
                    let mut v: Vec<u16> = Vec::new();
                    v.push(g);
                    proof {
                        assert(v@ =~= seq![g]);
                    }
                    Some(v)
                },
                None => {
                    match parse_ipv4(s) {
                        Some(ip) => {
                            let mut v: Vec<u16> = Vec::new();
                            v.push((ip.a as u16) * 256 + (ip.b as u16));
                            v.push((ip.c as u16) * 256 + (ip.d as u16));
                            proof {
                                assert(v@ =~= ipv4_as_groups(ip));
                            }
                            Some(v)
                        },
                        None => None,
                    }
                },
            }
        },
        Some(i) => {
            let head = s.substring_char(0, i);
            let rest = s.substring_char(i + 1, n);
            proof {
                assert(head@ =~= s@.take(i as int));
                assert(rest@ =~= s@.skip(i + 1));
            }
            let g = match parse_hex_group(head) {
                Some(g) => g,
                None => {
                    return None;
                },
            };
            match parse_tail_parts(rest) {
                Some(mut v) => {
                    let ghost rest_groups = v@;
                    v.insert(0, g);
                    proof {
                        assert(v@ =~= seq![g] + rest_groups);
                    }
                    Some(v)
                },
                None => None,
            }
        },
    }
}

/// Builds the address out of its eight parsed groups.
fn ipv6_from_groups_exec(v: &Vec<u16>) -> (r: Ipv6Address)
    requires
        v@.len() == 8,
    ensures
        r == ipv6_from_groups(v@),
{
    Ipv6Address {
        g0: v[0],
        g1: v[1],
        g2: v[2],
        g3: v[3],
        g4: v[4],
        g5: v[5],
        g6: v[6],
        g7: v[7],
    }
}

/// Parses an IPv6 address literal, exactly as the group grammar with `::`
/// elision allows.
pub fn parse_ipv6(s: &str) -> (r: Option<Ipv6Address>)
    ensures
        match r {
            Some(ip) => spec_parse_ipv6(s@) == Some(ip),
            None => spec_parse_ipv6(s@) is None,
        },
{
    let n = s.unicode_len();
    match find_first_double_colon(s) {
        None => {
            match parse_tail_parts(s) {
                Some(v) => {
                    if v.len() == 8 {
                        Some(ipv6_from_groups_exec(&v))
                    } else {
                        None
                    }
                },
                None => None,
            }
        },
        Some(i) => {
            let front: Vec<u16> = if i == 0 {
                Vec::new()
            } else {
                match parse_hex_parts(s.substring_char(0, i)) {
                    Some(v) => v,
                    None => {
                        return None;
                    },
                }
            };
            let back: Vec<u16> = if i + 2 == n {
                Vec::new()
            } else {
                match parse_tail_parts(s.substring_char(i + 2, n)) {
                    Some(v) => v,
                    None => {
                        return None;
                    },
                }
            };
            if front.len() > 7 || back.len() > 7 - front.len() {
                return None;
            }
            let ghost front_groups = front@;
            let ghost back_groups = back@;
            let fill: usize = 8 - front.len() - back.len();
            let mut groups = front;
            let mut z: usize = 0;
            while z < fill
                invariant
                    0 <= z <= fill,
                    fill == 8 - front_groups.len() - back_groups.len(),
                    groups@ =~= front_groups + Seq::new(z as nat, |j: int| 0u16),
                decreases fill - z,
            {
                groups.push(0);
                proof {
                    assert(groups@ =~= front_groups + Seq::new((z + 1) as nat, |j: int| 0u16));
                }
                z = z + 1;
            }
            let mut tail = back;
            groups.append(&mut tail);
            proof {
                assert(groups@ =~= front_groups + Seq::new(
                    (8 - front_groups.len() - back_groups.len()) as nat,
                    |j: int| 0u16,
                ) + back_groups);
            }
            Some(ipv6_from_groups_exec(&groups))
        },
    }
}

/// Parses a socket-address literal — `a.b.c.d:port` or `[v6]:port` —
/// exactly as the grammar allows: the value returned is the one the
/// grammar denotes, and `None` comes back exactly on the strings the
/// grammar rejects.
pub fn parse_socket_addr(s: &str) -> (r: Option<SocketAddress>)
    ensures
        r == spec_parse_socket_addr(s@),
{
    let n = s.unicode_len();
    if n > 0 && s.get_char(0) == '[' {
        let j = match find_first(s, ']') {
            Some(j) => j,
            None => {
                return None;
            },
        };
        if j + 1 >= n {
            return None;
        }
        if s.get_char(j + 1) != ':' {
            return None;
        }
        proof {
            lemma_find_char_bounds(s@, ']');
        }
        let inner = s.substring_char(1, j);
        let port_s = s.substring_char(j + 2, n);
        proof {
            assert(inner@ =~= s@.subrange(1, j as int));
            assert(port_s@ =~= s@.skip(j + 2));
        }
        let ip = parse_ipv6(inner);
        let port = parse_port(port_s);
        match (ip, port) {
            (Some(ip), Some(port)) => Some(SocketAddress { ip: IpAddress::V6(ip), port }),
            _ => None,
        }
    } else {
        let i = match find_first(s, ':') {
            Some(i) => i,
            None => {
                return None;
            },
        };
        let ip = parse_ipv4(s.substring_char(0, i));
        let port = parse_port(s.substring_char(i + 1, n));
        proof {
            assert(s@.skip(i + 1) =~= s@.subrange(i + 1, n as int));
        }
        match (ip, port) {
            (Some(ip), Some(port)) => Some(SocketAddress { ip: IpAddress::V4(ip), port }),
            _ => None,
        }
    }
}

} // verus!
