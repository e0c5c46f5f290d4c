//! The reverse-lookup query name for an address: the `in-addr.arpa.` form
//! for IPv4 and the nibble-per-label `ip6.arpa.` form for IPv6.
use crate::ip::{IpAddress, IpModel};
use crate::text::{dec_of, digit_char, digit_str, push_dec_u64};
use vstd::prelude::*;
use vstd::string::*;

verus! {

/// The four nibble labels of one 16-bit group, least significant first,
/// dot-separated.
pub open spec fn group_nibble_chars(v: u16) -> Seq<char> {
    seq![
        digit_char((v % 16) as nat),
        '.',
        digit_char(((v / 16) % 16) as nat),
        '.',
        digit_char(((v / 256) % 16) as nat),
        '.',
        digit_char((v / 4096) as nat),
    ]
}

/// The nibble labels of groups `[i-1]` down to `[0]`, dot-separated.
pub open spec fn rev_groups_chars(g: Seq<u16>, i: int) -> Seq<char>
    decreases i,
{
    if i <= 0 || i > g.len() {
        Seq::empty()
    } else if i == 1 {
        group_nibble_chars(g[0])
    } else {
        group_nibble_chars(g[i - 1]) + "."@ + rev_groups_chars(g, i - 1)
    }
}

/// The reverse name of an IPv4 address: the octets reversed, dot-joined,
/// under `in-addr.arpa.`.
pub open spec fn reverse_v4_chars(a: u8, b: u8, c: u8, d: u8) -> Seq<char> {
    dec_of(d as nat) + "."@ + dec_of(c as nat) + "."@ + dec_of(b as nat) + "."@ + dec_of(a as nat)
        + ".in-addr.arpa."@
}

/// The reverse name of an IPv6 address: all 32 nibbles, least significant
/// first, dot-joined, under `ip6.arpa.`.
pub open spec fn reverse_v6_chars(g: Seq<u16>) -> Seq<char> {
    rev_groups_chars(g, 8) + ".ip6.arpa."@
}

/// The reverse-lookup name of an address of either family.
pub open spec fn reverse_name_chars(m: IpModel) -> Seq<char> {
    match m {
        IpModel::V4(a, b, c, d) => reverse_v4_chars(a, b, c, d),
        IpModel::V6(g) => reverse_v6_chars(g),
    }
}

fn push_group_nibbles(out: &mut String, v: u16)
    ensures
        final(out)@ == old(out)@ + group_nibble_chars(v),
{
    out.append(digit_str((v % 16) as u8));
    out.append(".");
    out.append(digit_str(((v / 16) % 16) as u8));
    out.append(".");
    out.append(digit_str(((v / 256) % 16) as u8));
    out.append(".");
    out.append(digit_str((v / 4096) as u8));
    proof {
        reveal_strlit(".");
        assert(final(out)@ =~= old(out)@ + group_nibble_chars(v));
    }
}

fn push_rev_groups(out: &mut String, g: &Vec<u16>, i: usize)
    requires
        i <= g@.len(),
    ensures
        final(out)@ == old(out)@ + rev_groups_chars(g@, i as int),
    decreases i,
{
    if i == 0 {
        proof {
            assert(final(out)@ =~= old(out)@ + rev_groups_chars(g@, 0));
        }
    } else if i == 1 {
        push_group_nibbles(out, g[0]);
    } else {
        push_group_nibbles(out, g[i - 1]);
        out.append(".");
        push_rev_groups(out, g, i - 1);
        proof {
            assert(final(out)@ =~= old(out)@ + rev_groups_chars(g@, i as int));
        }
    }
}

/// Builds the reverse-lookup query name shown in the question entry.
pub fn reverse_name(ip: &IpAddress) -> (r: String)
    requires
        ip.wf(),
    ensures
        r@ == reverse_name_chars(ip.model()),
{
    let mut out = String::new();
    match ip {
        IpAddress::V4(v4) => {
            push_dec_u64(&mut out, v4.d as u64);
            out.append(".");
            push_dec_u64(&mut out, v4.c as u64);
            out.append(".");
            push_dec_u64(&mut out, v4.b as u64);
            out.append(".");
            push_dec_u64(&mut out, v4.a as u64);
            out.append(".in-addr.arpa.");
            proof {
                assert(out@ =~= reverse_v4_chars(v4.a, v4.b, v4.c, v4.d));
            }
        },
        IpAddress::V6(v6) => {
            push_rev_groups(&mut out, &v6.groups, 8);
            out.append(".ip6.arpa.");
            proof {
                assert(out@ =~= reverse_v6_chars(v6.groups@));
            }
        },
    }
    out
}

} // verus!
