//! IP addresses and endpoints as plain values: four octets for IPv4, eight
//! 16-bit groups for IPv6. Text formatting follows the canonical forms used
//! in DNS record data (lowercase hex, longest zero run compressed, the
//! IPv4-mapped range in mixed notation).
use crate::text::{dec_of, hex_of, push_dec_u64, push_hex_u16};
use vstd::prelude::*;
use vstd::string::*;

verus! {

/// An IPv4 address as its four octets, in network order.
#[derive(Clone, Copy, Debug)]
pub struct Ipv4 {
    pub a: u8,
    pub b: u8,
    pub c: u8,
    pub d: u8,
}

/// An IPv6 address as its eight 16-bit groups, in network order.
#[derive(Clone, Debug)]
pub struct Ipv6 {
    pub groups: Vec<u16>,
}

/// An IP address of either family.
#[derive(Clone, Debug)]
pub enum IpAddress {
    V4(Ipv4),
    V6(Ipv6),
}

/// A nameserver endpoint: an IP address and a port.
#[derive(Clone, Debug)]
pub struct Endpoint {
    pub ip: IpAddress,
    pub port: u16,
}

/// The mathematical value of an address, free of representation detail.
pub enum IpModel {
    V4(u8, u8, u8, u8),
    V6(Seq<u16>),
}

impl Ipv6 {
    pub open spec fn wf(&self) -> bool {
        self.groups@.len() == 8
    }
}

impl IpAddress {
    pub open spec fn wf(&self) -> bool {
        match self {
            IpAddress::V4(_) => true,
            IpAddress::V6(v6) => v6.wf(),
        }
    }

    pub open spec fn model(&self) -> IpModel {
        match self {
            IpAddress::V4(v4) => IpModel::V4(v4.a, v4.b, v4.c, v4.d),
            IpAddress::V6(v6) => IpModel::V6(v6.groups@),
        }
    }
}

impl Endpoint {
    pub open spec fn wf(&self) -> bool {
        self.ip.wf()
    }
}

/// Dotted-decimal text of an IPv4 address.
pub open spec fn ipv4_chars(a: u8, b: u8, c: u8, d: u8) -> Seq<char> {
    dec_of(a as nat) + "."@ + dec_of(b as nat) + "."@ + dec_of(c as nat) + "."@ + dec_of(d as nat)
}

/// The length of the run of zero groups starting at `i`.
pub open spec fn zero_run_len(g: Seq<u16>, i: int) -> int
    decreases g.len() - i,
{
    if i < 0 || i >= g.len() || g[i] != 0 {
        0
    } else {
        1 + zero_run_len(g, i + 1)
    }
}

/// The leftmost longest run of zero groups at or after `i`, as (start, length).
pub open spec fn best_zero_run(g: Seq<u16>, i: int) -> (int, int)
    decreases g.len() - i,
{
    if i < 0 || i >= g.len() {
        (0, 0)
    } else {
        let rest = best_zero_run(g, i + 1);
        let cur = zero_run_len(g, i);
        if cur >= rest.1 {
            (i, cur)
        } else {
            rest
        }
    }
}

/// The groups in `[start, end)` in lowercase hex, separated by colons.
pub open spec fn hex_group_chars(g: Seq<u16>, start: int, end: int) -> Seq<char>
    decreases end - start,
{
    if start < 0 || start >= end || end > g.len() {
        Seq::empty()
    } else if start + 1 == end {
        hex_of(g[start] as nat)
    } else {
        hex_of(g[start] as nat) + ":"@ + hex_group_chars(g, start + 1, end)
    }
}

/// Canonical text of an IPv6 address: the IPv4-mapped range in mixed
/// notation, otherwise the leftmost longest run of two or more zero groups
/// compressed to a double colon.
pub open spec fn ipv6_chars(g: Seq<u16>) -> Seq<char> {
    if g.len() == 8 && g[0] == 0 && g[1] == 0 && g[2] == 0 && g[3] == 0 && g[4] == 0 && g[5]
        == 0xffff {
        "::ffff:"@ + ipv4_chars(
            (g[6] / 256) as u8,
            (g[6] % 256) as u8,
            (g[7] / 256) as u8,
            (g[7] % 256) as u8,
        )
    } else {
        let br = best_zero_run(g, 0);
        if br.1 > 1 {
            hex_group_chars(g, 0, br.0) + "::"@ + hex_group_chars(g, br.0 + br.1, g.len() as int)
        } else {
            hex_group_chars(g, 0, g.len() as int)
        }
    }
}

/// Canonical text of an address of either family.
pub open spec fn ip_chars(m: IpModel) -> Seq<char> {
    match m {
        IpModel::V4(a, b, c, d) => ipv4_chars(a, b, c, d),
        IpModel::V6(g) => ipv6_chars(g),
    }
}

/// Appends dotted-decimal text of four octets to `out`.
pub fn push_ipv4_parts(out: &mut String, a: u8, b: u8, c: u8, d: u8)
    ensures
        final(out)@ == old(out)@ + ipv4_chars(a, b, c, d),
{
    push_dec_u64(out, a as u64);
    out.append(".");
    push_dec_u64(out, b as u64);
    out.append(".");
    push_dec_u64(out, c as u64);
    out.append(".");
    push_dec_u64(out, d as u64);
    proof {
        assert(final(out)@ =~= old(out)@ + ipv4_chars(a, b, c, d));
    }
}

/// Appends the text of an IPv4 address to `out`.
pub fn push_ipv4(out: &mut String, ip: &Ipv4)
    ensures
        final(out)@ == old(out)@ + ipv4_chars(ip.a, ip.b, ip.c, ip.d),
{
    push_ipv4_parts(out, ip.a, ip.b, ip.c, ip.d);
}

fn zero_run_len_at(g: &Vec<u16>, i: usize) -> (r: usize)
    requires
        i <= g@.len(),
        g@.len() <= 8,
    ensures
        r == zero_run_len(g@, i as int),
        r <= g@.len() - i,
    decreases g@.len() - i,
{
    if i < g.len() && g[i] == 0 {
        1 + zero_run_len_at(g, i + 1)
    } else {
        0
    }
}

fn best_zero_run_at(g: &Vec<u16>, i: usize) -> (r: (usize, usize))
    requires
        i <= g@.len(),
        g@.len() <= 8,
    ensures
        (r.0 as int, r.1 as int) == best_zero_run(g@, i as int),
        r.0 + r.1 <= g@.len(),
    decreases g@.len() - i,
{
    if i >= g.len() {
        (0, 0)
    } else {
        let rest = best_zero_run_at(g, i + 1);
        let cur = zero_run_len_at(g, i);
        if cur >= rest.1 {
            (i, cur)
        } else {
            rest
        }
    }
}

fn push_hex_groups(out: &mut String, g: &Vec<u16>, start: usize, end: usize)
    requires
        end <= g@.len(),
    ensures
        final(out)@ == old(out)@ + hex_group_chars(g@, start as int, end as int),
    decreases end - start,
{
    if start >= end {
        proof {
            assert(final(out)@ =~= old(out)@ + hex_group_chars(g@, start as int, end as int));
        }
    } else if start + 1 == end {
        push_hex_u16(out, g[start]);
    } else {
        push_hex_u16(out, g[start]);
        out.append(":");
        push_hex_groups(out, g, start + 1, end);
        proof {
            assert(final(out)@ =~= old(out)@ + hex_group_chars(g@, start as int, end as int));
        }
    }
}

/// Appends the canonical text of an IPv6 address to `out`.
pub fn push_ipv6(out: &mut String, ip: &Ipv6)
    requires
        ip.wf(),
    ensures
        final(out)@ == old(out)@ + ipv6_chars(ip.groups@),
{
    let g = &ip.groups;
    if g[0] == 0 && g[1] == 0 && g[2] == 0 && g[3] == 0 && g[4] == 0 && g[5] == 0xffff {
        out.append("::ffff:");
        push_ipv4_parts(
            out,
            (g[6] / 256) as u8,
            (g[6] % 256) as u8,
            (g[7] / 256) as u8,
            (g[7] % 256) as u8,
        );
        proof {
            assert(final(out)@ =~= old(out)@ + ipv6_chars(g@));
        }
    } else {
        let br = best_zero_run_at(g, 0);
        if br.1 > 1 {
            push_hex_groups(out, g, 0, br.0);
            out.append("::");
            push_hex_groups(out, g, br.0 + br.1, 8);
            proof {
                assert(final(out)@ =~= old(out)@ + ipv6_chars(g@));
            }
        } else {
            push_hex_groups(out, g, 0, 8);
            proof {
                assert(final(out)@ =~= old(out)@ + ipv6_chars(g@));
            }
        }
    }
}

pub const DOT: u8 = 46;

pub const COLON: u8 = 58;

pub const LBRACKET: u8 = 91;

pub const RBRACKET: u8 = 93;

pub open spec fn is_digit(b: u8) -> bool {
    48 <= b <= 57
}

pub open spec fn digit_val(b: u8) -> nat {
    (b - 48) as nat
}

pub open spec fn is_hex_digit(b: u8) -> bool {
    is_digit(b) || (97 <= b <= 102) || (65 <= b <= 70)
}

pub open spec fn hex_digit_val(b: u8) -> nat {
    if is_digit(b) {
        (b - 48) as nat
    } else if 97 <= b <= 102 {
        (b - 87) as nat
    } else {
        (b - 55) as nat
    }
}

pub open spec fn all_digits(s: Seq<u8>, start: int, end: int) -> bool {
    forall|i: int| start <= i < end ==> is_digit(#[trigger] s[i])
}

pub open spec fn all_hex_digits(s: Seq<u8>, start: int, end: int) -> bool {
    forall|i: int| start <= i < end ==> is_hex_digit(#[trigger] s[i])
}

/// The value of the decimal digits in `[start, end)`.
pub open spec fn dec_value(s: Seq<u8>, start: int, end: int) -> nat
    decreases end - start,
{
    if start >= end {
        0
    } else {
        dec_value(s, start, end - 1) * 10 + digit_val(s[end - 1])
    }
}

/// The value of the hexadecimal digits in `[start, end)`.
pub open spec fn hex_value(s: Seq<u8>, start: int, end: int) -> nat
    decreases end - start,
{
    if start >= end {
        0
    } else {
        hex_value(s, start, end - 1) * 16 + hex_digit_val(s[end - 1])
    }
}

/// The first index of `t` in `[start, end)`, if any.
pub open spec fn first_at(s: Seq<u8>, t: u8, start: int, end: int) -> Option<int>
    decreases end - start,
{
    if start < 0 || start >= end || end > s.len() {
        None
    } else if s[start] == t {
        Some(start)
    } else {
        first_at(s, t, start + 1, end)
    }
}

/// The first index of a double colon beginning in `[start, end - 1)`, if any.
pub open spec fn dcolon_at(s: Seq<u8>, start: int, end: int) -> Option<int>
    decreases end - start,
{
    if start < 0 || start + 1 >= end || end > s.len() {
        None
    } else if s[start] == COLON && s[start + 1] == COLON {
        Some(start)
    } else {
        dcolon_at(s, start + 1, end)
    }
}

/// A dotted-quad component: one to three decimal digits, no leading zero,
/// value at most 255.
pub open spec fn octet_at(s: Seq<u8>, start: int, end: int) -> Option<u8> {
    if 0 <= start && start < end && end <= s.len() && end - start <= 3 && all_digits(s, start, end)
        && (end - start == 1 || s[start] != 48) && dec_value(s, start, end) <= 255 {
        Some(dec_value(s, start, end) as u8)
    } else {
        None
    }
}

/// A port: one or more decimal digits whose value fits in sixteen bits.
/// Leading zeros are accepted.
pub open spec fn port_at(s: Seq<u8>, start: int, end: int) -> Option<u16> {
    if 0 <= start && start < end && end <= s.len() && all_digits(s, start, end) && dec_value(
        s,
        start,
        end,
    ) <= 65535 {
        Some(dec_value(s, start, end) as u16)
    } else {
        None
    }
}

/// An IPv6 group: one to four hexadecimal digits. Leading zeros are accepted.
pub open spec fn hexgroup_at(s: Seq<u8>, start: int, end: int) -> Option<u16> {
    if 0 <= start && start < end && end <= s.len() && end - start <= 4 && all_hex_digits(
        s,
        start,
        end,
    ) {
        Some(hex_value(s, start, end) as u16)
    } else {
        None
    }
}

/// An IPv4 literal: four octets separated by dots, filling `[start, end)`.
pub open spec fn ipv4_at(s: Seq<u8>, start: int, end: int) -> Option<(u8, u8, u8, u8)> {
    match first_at(s, DOT, start, end) {
        None => None,
        Some(i) => match first_at(s, DOT, i + 1, end) {
            None => None,
            Some(j) => match first_at(s, DOT, j + 1, end) {
                None => None,
                Some(k) => match (
                    octet_at(s, start, i),
                    octet_at(s, i + 1, j),
                    octet_at(s, j + 1, k),
                    octet_at(s, k + 1, end),
                ) {
                    (Some(a), Some(b), Some(c), Some(d)) => Some((a, b, c, d)),
                    _ => None,
                },
            },
        },
    }
}

/// A colon-separated run of IPv6 groups filling `[start, end)`: no empty
/// group, and, when `allow_v4` holds, the final group may instead be an
/// embedded IPv4 literal standing for two groups.
pub open spec fn groups_at(s: Seq<u8>, start: int, end: int, allow_v4: bool) -> Option<Seq<u16>>
    decreases end - start,
{
    if start < 0 || start >= end || end > s.len() {
        None
    } else {
        match first_at(s, COLON, start, end) {
            None => {
                if allow_v4 && first_at(s, DOT, start, end) is Some {
                    match ipv4_at(s, start, end) {
                        Some((a, b, c, d)) => Some(
                            seq![
                                ((a as nat) * 256 + (b as nat)) as u16,
                                ((c as nat) * 256 + (d as nat)) as u16,
                            ],
                        ),
                        None => None,
                    }
                } else {
                    match hexgroup_at(s, start, end) {
                        Some(g) => Some(seq![g]),
                        None => None,
                    }
                }
            },
            Some(i) => if start <= i < end {
                match hexgroup_at(s, start, i) {
                    None => None,
                    Some(g) => match groups_at(s, i + 1, end, allow_v4) {
                        None => None,
                        Some(rest) => Some(seq![g] + rest),
                    },
                }
            } else {
                None
            },
        }
    }
}

pub open spec fn zero_groups(n: int) -> Seq<u16> {
    Seq::new(n as nat, |i: int| 0u16)
}

/// An IPv6 literal filling `[start, end)`: eight groups, or two
/// colon-separated runs around one double colon standing for the missing
/// zero groups (at least one).
pub open spec fn ipv6_at(s: Seq<u8>, start: int, end: int) -> Option<Seq<u16>> {
    match dcolon_at(s, start, end) {
        None => match groups_at(s, start, end, true) {
            Some(g) => if g.len() == 8 {
                Some(g)
            } else {
                None
            },
            None => None,
        },
        Some(i) => {
            let lg = if i == start {
                Some(Seq::<u16>::empty())
            } else {
                groups_at(s, start, i, false)
            };
            let rg = if i + 2 == end {
                Some(Seq::<u16>::empty())
            } else {
                groups_at(s, i + 2, end, true)
            };
            match (lg, rg) {
                (Some(l), Some(r)) => if l.len() + r.len() <= 7 {
                    Some(l + zero_groups(8 - l.len() - r.len()) + r)
                } else {
                    None
                },
                _ => None,
            }
        },
    }
}

/// An IP literal of either family filling `[start, end)`.
pub open spec fn ip_at(s: Seq<u8>, start: int, end: int) -> Option<IpModel> {
    match ipv4_at(s, start, end) {
        Some((a, b, c, d)) => Some(IpModel::V4(a, b, c, d)),
        None => match ipv6_at(s, start, end) {
            Some(g) => Some(IpModel::V6(g)),
            None => None,
        },
    }
}

/// A server endpoint with an explicit port: `ip:port` for IPv4 or
/// `[ip]:port` for IPv6.
pub open spec fn socket_of(s: Seq<u8>) -> Option<(IpModel, u16)> {
    let n = s.len() as int;
    if n > 0 && s[0] == LBRACKET {
        match first_at(s, RBRACKET, 0, n) {
            Some(j) => if j + 1 < n && s[j + 1] == COLON {
                match (ipv6_at(s, 1, j), port_at(s, j + 2, n)) {
                    (Some(g), Some(p)) => Some((IpModel::V6(g), p)),
                    _ => None,
                }
            } else {
                None
            },
            None => None,
        }
    } else {
        match first_at(s, COLON, 0, n) {
            Some(i) => match (ipv4_at(s, 0, i), port_at(s, i + 1, n)) {
                (Some((a, b, c, d)), Some(p)) => Some((IpModel::V4(a, b, c, d), p)),
                _ => None,
            },
            None => None,
        }
    }
}

/// A server address: an endpoint with an explicit port, or a bare IP
/// literal with the default DNS port 53.
pub open spec fn server_endpoint_of(s: Seq<u8>) -> Option<(IpModel, u16)> {
    match socket_of(s) {
        Some(e) => Some(e),
        None => match ip_at(s, 0, s.len() as int) {
            Some(m) => Some((m, 53)),
            None => None,
        },
    }
}

/// The bytes of an ASCII character sequence.
pub open spec fn ascii_bytes(s: Seq<char>) -> Seq<u8> {
    Seq::new(s.len(), |i: int| s[i] as u8)
}

/// An IP literal as text: ASCII, parsed as an address of either family.
pub open spec fn ip_of_text(s: Seq<char>) -> Option<IpModel> {
    if vstd::utf8::is_ascii_chars(s) {
        ip_at(ascii_bytes(s), 0, s.len() as int)
    } else {
        None
    }
}

/// A server address as text: ASCII, parsed as an endpoint.
pub open spec fn server_endpoint_of_text(s: Seq<char>) -> Option<(IpModel, u16)> {
    if vstd::utf8::is_ascii_chars(s) {
        server_endpoint_of(ascii_bytes(s))
    } else {
        None
    }
}

fn find_byte(v: &Vec<u8>, t: u8, start: usize, end: usize) -> (r: Option<usize>)
    requires
        end <= v@.len(),
    ensures
        match (r, first_at(v@, t, start as int, end as int)) {
            (Some(a), Some(b)) => a as int == b && start <= a < end,
            (None, None) => true,
            _ => false,
        },
{
    let mut i = start;
    while i < end
        invariant
            start <= i,
            end <= v@.len(),
            first_at(v@, t, start as int, end as int) == first_at(v@, t, i as int, end as int),
        decreases end - i,
    {
        if v[i] == t {
            return Some(i);
        }
        i = i + 1;
    }
    None
}

fn find_dcolon(v: &Vec<u8>, start: usize, end: usize) -> (r: Option<usize>)
    requires
        end <= v@.len(),
    ensures
        match (r, dcolon_at(v@, start as int, end as int)) {
            (Some(a), Some(b)) => a as int == b && start <= a && a + 1 < end,
            (None, None) => true,
            _ => false,
        },
{
    let mut i = start;
    while i < end && i + 1 < end
        invariant
            start <= i,
            end <= v@.len(),
            dcolon_at(v@, start as int, end as int) == dcolon_at(v@, i as int, end as int),
        decreases end - i,
    {
        if v[i] == COLON && v[i + 1] == COLON {
            return Some(i);
        }
        i = i + 1;
    }
    None
}

fn parse_octet(v: &Vec<u8>, start: usize, end: usize) -> (r: Option<u8>)
    requires
        end <= v@.len(),
    ensures
        r == octet_at(v@, start as int, end as int),
{
    if start >= end || end - start > 3 {
        return None;
    }
    if end - start > 1 && v[start] == 48 {
        return None;
    }
    let mut acc: u32 = 0;
    let mut i = start;
    while i < end
        invariant
            start <= i <= end,
            end <= v@.len(),
            end - start <= 3,
            all_digits(v@, start as int, i as int),
            acc == dec_value(v@, start as int, i as int),
            i - start == 0 ==> acc == 0,
            i - start == 1 ==> acc <= 9,
            i - start == 2 ==> acc <= 99,
            i - start == 3 ==> acc <= 999,
        decreases end - i,
    {
        let b = v[i];
        if b < 48 || b > 57 {
            return None;
        }
        acc = acc * 10 + ((b - 48) as u32);
        i = i + 1;
    }
    if acc <= 255 {
        Some(acc as u8)
    } else {
        None
    }
}

fn parse_port(v: &Vec<u8>, start: usize, end: usize) -> (r: Option<u16>)
    requires
        end <= v@.len(),
    ensures
        r == port_at(v@, start as int, end as int),
{
    if start >= end {
        return None;
    }
    let mut acc: u32 = 0;
    let mut i = start;
    while i < end
        invariant
            start <= i <= end,
            end <= v@.len(),
            all_digits(v@, start as int, i as int),
            dec_value(v@, start as int, i as int) <= 65535 ==> acc == dec_value(
                v@,
                start as int,
                i as int,
            ),
            dec_value(v@, start as int, i as int) > 65535 ==> 65535 < acc <= 70000,
            acc <= 70000,
        decreases end - i,
    {
        let b = v[i];
        if b < 48 || b > 57 {
            return None;
        }
        acc = acc * 10 + ((b - 48) as u32);
        if acc > 65535 {
            acc = 70000;
        }
        i = i + 1;
    }
    if acc <= 65535 {
        Some(acc as u16)
    } else {
        None
    }
}

fn parse_hexgroup(v: &Vec<u8>, start: usize, end: usize) -> (r: Option<u16>)
    requires
        end <= v@.len(),
    ensures
        r == hexgroup_at(v@, start as int, end as int),
{
    if start >= end || end - start > 4 {
        return None;
    }
    let mut acc: u32 = 0;
    let mut i = start;
    while i < end
        invariant
            start <= i <= end,
            end <= v@.len(),
            end - start <= 4,
            all_hex_digits(v@, start as int, i as int),
            acc == hex_value(v@, start as int, i as int),
            i - start == 0 ==> acc == 0,
            i - start == 1 ==> acc <= 15,
            i - start == 2 ==> acc <= 255,
            i - start == 3 ==> acc <= 4095,
            i - start == 4 ==> acc <= 65535,
        decreases end - i,
    {
        let b = v[i];
        let d: u32 = if 48 <= b && b <= 57 {
            (b - 48) as u32
        } else if 97 <= b && b <= 102 {
            (b - 87) as u32
        } else if 65 <= b && b <= 70 {
            (b - 55) as u32
        } else {
            return None;
        };
        acc = acc * 16 + d;
        i = i + 1;
    }
    Some(acc as u16)
}

fn parse_ipv4_range(v: &Vec<u8>, start: usize, end: usize) -> (r: Option<(u8, u8, u8, u8)>)
    requires
        end <= v@.len(),
    ensures
        r == ipv4_at(v@, start as int, end as int),
{
    match find_byte(v, DOT, start, end) {
        None => None,
        Some(i) => match find_byte(v, DOT, i + 1, end) {
            None => None,
            Some(j) => match find_byte(v, DOT, j + 1, end) {
                None => None,
                Some(k) => {
                    let a = parse_octet(v, start, i);
                    let b = parse_octet(v, i + 1, j);
                    let c = parse_octet(v, j + 1, k);
                    let d = parse_octet(v, k + 1, end);
                    match (a, b, c, d) {
                        (Some(a), Some(b), Some(c), Some(d)) => Some((a, b, c, d)),
                        _ => None,
                    }
                },
            },
        },
    }
}

fn parse_groups(v: &Vec<u8>, start: usize, end: usize, allow_v4: bool) -> (r: Option<Vec<u16>>)
    requires
        end <= v@.len(),
    ensures
        match (r, groups_at(v@, start as int, end as int, allow_v4)) {
            (Some(g), Some(sg)) => g@ == sg,
            (None, None) => true,
            _ => false,
        },
    decreases end - start,
{
    if start >= end {
        return None;
    }
    match find_byte(v, COLON, start, end) {
        None => {
            let has_dot = match find_byte(v, DOT, start, end) {
                Some(_) => true,
                None => false,
            };
            if allow_v4 && has_dot {
                match parse_ipv4_range(v, start, end) {
                    Some((a, b, c, d)) => {
                        let g1: u16 = (a as u16) * 256 + (b as u16);
                        let g2: u16 = (c as u16) * 256 + (d as u16);
                        let mut out: Vec<u16> = Vec::new();
                        out.push(g1);
                        out.push(g2);
                        proof {
                            assert(out@ =~= seq![
                                ((a as nat) * 256 + (b as nat)) as u16,
                                ((c as nat) * 256 + (d as nat)) as u16,
                            ]);
                        }
                        Some(out)
                    },
                    None => None,
                }
            } else {
                match parse_hexgroup(v, start, end) {
                    Some(g) => {
                        let mut out: Vec<u16> = Vec::new();
                        out.push(g);
                        proof {
                            assert(out@ =~= seq![g]);
                        }
                        Some(out)
                    },
                    None => None,
                }
            }
        },
        Some(i) => match parse_hexgroup(v, start, i) {
            None => None,
            Some(g) => match parse_groups(v, i + 1, end, allow_v4) {
                None => None,
                Some(rest) => {
                    let mut out: Vec<u16> = Vec::new();
                    out.push(g);
                    let mut k: usize = 0;
                    while k < rest.len()
                        invariant
                            k <= rest@.len(),
                            out@ == seq![g] + rest@.take(k as int),
                        decreases rest@.len() - k,
                    {
                        out.push(rest[k]);
                        proof {
                            assert(out@ =~= seq![g] + rest@.take(k + 1 as int));
                        }
                        k = k + 1;
                    }
                    proof {
                        assert(rest@.take(rest@.len() as int) =~= rest@);
                    }
                    Some(out)
                },
            },
        },
    }
}

fn parse_ipv6_range(v: &Vec<u8>, start: usize, end: usize) -> (r: Option<Vec<u16>>)
    requires
        end <= v@.len(),
    ensures
        match (r, ipv6_at(v@, start as int, end as int)) {
            (Some(g), Some(sg)) => g@ == sg,
            (None, None) => true,
            _ => false,
        },
{
    match find_dcolon(v, start, end) {
        None => match parse_groups(v, start, end, true) {
            Some(g) => if g.len() == 8 {
                Some(g)
            } else {
                None
            },
            None => None,
        },
        Some(i) => {
            let left: Option<Vec<u16>> = if i == start {
                Some(Vec::new())
            } else {
                parse_groups(v, start, i, false)
            };
            let right: Option<Vec<u16>> = if i + 2 == end {
                Some(Vec::new())
            } else {
                parse_groups(v, i + 2, end, true)
            };
            match (left, right) {
                (Some(l), Some(rgt)) => {
                    if l.len() <= 7 && rgt.len() <= 7 - l.len() {
                        let fill = 8 - l.len() - rgt.len();
                        let mut out: Vec<u16> = Vec::new();
                        let mut k: usize = 0;
                        while k < l.len()
                            invariant
                                k <= l@.len(),
                                out@ == l@.take(k as int),
                            decreases l@.len() - k,
                        {
                            out.push(l[k]);
                            proof {
                                assert(out@ =~= l@.take(k + 1 as int));
                            }
                            k = k + 1;
                        }
                        proof {
                            assert(l@.take(l@.len() as int) =~= l@);
                        }
                        let mut z: usize = 0;
                        while z < fill
                            invariant
                                z <= fill,
                                fill == 8 - l@.len() - rgt@.len(),
                                l@.len() + rgt@.len() <= 7,
                                out@ == l@ + zero_groups(z as int),
                            decreases fill - z,
                        {
                            out.push(0);
                            proof {
                                assert(out@ =~= l@ + zero_groups(z + 1 as int));
                            }
                            z = z + 1;
                        }
                        let mut k2: usize = 0;
                        while k2 < rgt.len()
                            invariant
                                k2 <= rgt@.len(),
                                fill == 8 - l@.len() - rgt@.len(),
                                l@.len() + rgt@.len() <= 7,
                                out@ == l@ + zero_groups(fill as int) + rgt@.take(k2 as int),
                            decreases rgt@.len() - k2,
                        {
                            out.push(rgt[k2]);
                            proof {
                                assert(out@ =~= l@ + zero_groups(fill as int) + rgt@.take(
                                    k2 + 1 as int,
                                ));
                            }
                            k2 = k2 + 1;
                        }
                        proof {
                            assert(rgt@.take(rgt@.len() as int) =~= rgt@);
                        }
                        Some(out)
                    } else {
                        None
                    }
                },
                _ => None,
            }
        },
    }
}

fn ascii_vec(s: &str) -> (r: Option<Vec<u8>>)
    ensures
        match r {
            Some(v) => vstd::utf8::is_ascii_chars(s@) && v@ == ascii_bytes(s@),
            None => !vstd::utf8::is_ascii_chars(s@),
        },
{
    if !s.is_ascii() {
        return None;
    }
    let v = s.as_bytes_vec();
    proof {
        broadcast use vstd::string::is_ascii_spec_bytes;

        assert(v@ =~= ascii_bytes(s@));
    }
    Some(v)
}

/// Parses an IP literal of either family, as a reverse-lookup target is
/// given.
pub fn parse_ip(s: &str) -> (r: Option<IpAddress>)
    ensures
        match (r, ip_of_text(s@)) {
            (Some(ip), Some(m)) => ip.wf() && ip.model() == m,
            (None, None) => true,
            _ => false,
        },
{
    let v = match ascii_vec(s) {
        Some(v) => v,
        None => {
            return None;
        },
    };
    let n = v.len();
    match parse_ipv4_range(&v, 0, n) {
        Some((a, b, c, d)) => Some(IpAddress::V4(Ipv4 { a, b, c, d })),
        None => match parse_ipv6_range(&v, 0, n) {
            Some(g) => Some(IpAddress::V6(Ipv6 { groups: g })),
            None => None,
        },
    }
}

/// Parses a server address: a bare IP literal (port defaults to 53) or an
/// endpoint with an explicit port, `ip:port` or `[ip]:port`.
pub fn parse_server_address(s: &str) -> (r: Option<Endpoint>)
    ensures
        match (r, server_endpoint_of_text(s@)) {
            (Some(e), Some((m, p))) => e.wf() && e.ip.model() == m && e.port == p,
            (None, None) => true,
            _ => false,
        },
{
    let v = match ascii_vec(s) {
        Some(v) => v,
        None => {
            return None;
        },
    };
    let n = v.len();
    let sock: Option<Endpoint> = if n > 0 && v[0] == LBRACKET {
        match find_byte(&v, RBRACKET, 0, n) {
            Some(j) => {
                if j + 1 < n && v[j + 1] == COLON {
                    match parse_ipv6_range(&v, 1, j) {
                        Some(g) => match parse_port(&v, j + 2, n) {
                            Some(p) => Some(
                                Endpoint { ip: IpAddress::V6(Ipv6 { groups: g }), port: p },
                            ),
                            None => None,
                        },
                        None => None,
                    }
                } else {
                    None
                }
            },
            None => None,
        }
    } else {
        match find_byte(&v, COLON, 0, n) {
            Some(i) => match parse_ipv4_range(&v, 0, i) {
                Some((a, b, c, d)) => match parse_port(&v, i + 1, n) {
                    Some(p) => Some(
                        Endpoint { ip: IpAddress::V4(Ipv4 { a, b, c, d }), port: p },
                    ),
                    None => None,
                },
                None => None,
            },
            None => None,
        }
    };
    match sock {
        Some(e) => Some(e),
        None => {
            match parse_ipv4_range(&v, 0, n) {
                Some((a, b, c, d)) => Some(
                    Endpoint { ip: IpAddress::V4(Ipv4 { a, b, c, d }), port: 53 },
                ),
                None => match parse_ipv6_range(&v, 0, n) {
                    Some(g) => Some(
                        Endpoint { ip: IpAddress::V6(Ipv6 { groups: g }), port: 53 },
                    ),
                    None => None,
                },
            }
        },
    }
}

/// The canonical text of an address, as record data reports it.
pub fn ip_to_string(ip: &IpAddress) -> (r: String)
    requires
        ip.wf(),
    ensures
        r@ == ip_chars(ip.model()),
{
    let mut out = String::new();
    match ip {
        IpAddress::V4(v4) => push_ipv4(&mut out, v4),
        IpAddress::V6(v6) => push_ipv6(&mut out, v6),
    }
    out
}

} // verus!
