//! IP addresses written as text, as the standard library reads them.
use vstd::prelude::*;

use crate::aggregate_report::{IpAddress, IpModel};
use crate::text::{chars_of, decimal_at_most, decimal_of_chars, is_digit, split_chars, split_on};

verus! {

/// One decimal octet: one to three digits, no leading zero, at most 255.
pub open spec fn octet_of(p: Seq<char>) -> Option<u8> {
    if 1 <= p.len() <= 3 && is_digit(p[0]) && (p.len() == 1 || p[0] != '0') {
        match decimal_at_most(p, 255) {
            Some(n) => Some(n as u8),
            None => None,
        }
    } else {
        None
    }
}

/// The octets of a dotted-quad IPv4 address.
pub open spec fn ipv4_of(s: Seq<char>) -> Option<Seq<u8>> {
    let parts = split_on(s, '.');
    if parts.len() == 4 && (forall|i: int| 0 <= i < 4 ==> (#[trigger] octet_of(parts[i])) is Some) {
        Some(Seq::new(4, |i: int| octet_of(parts[i])->0))
    } else {
        None
    }
}

/// The value of a hexadecimal digit.
pub open spec fn hex_digit(c: char) -> Option<nat> {
    if '0' <= c && c <= '9' {
        Some(((c as u32) - ('0' as u32)) as nat)
    } else if 'a' <= c && c <= 'f' {
        Some(((c as u32) - ('a' as u32) + 10) as nat)
    } else if 'A' <= c && c <= 'F' {
        Some(((c as u32) - ('A' as u32) + 10) as nat)
    } else {
        None
    }
}

/// The value of a string of hexadecimal digits, most significant first.
pub open spec fn hex_value(s: Seq<char>) -> nat
    decreases s.len(),
{
    if s.len() == 0 {
        0
    } else {
        hex_value(s.drop_last()) * 16 + match hex_digit(s.last()) {
            Some(d) => d,
            None => 0,
        }
    }
}

/// One group of an IPv6 address: one to four hexadecimal digits.
pub open spec fn hex_group_of(p: Seq<char>) -> Option<u16> {
    if 1 <= p.len() <= 4 && (forall|i: int| 0 <= i < p.len() ==> (#[trigger] hex_digit(p[i])) is Some) {
        Some(hex_value(p) as u16)
    } else {
        None
    }
}

/// The groups that the pieces spell, if each is a group.
pub open spec fn groups_of(pieces: Seq<Seq<char>>) -> Option<Seq<u16>> {
    if forall|i: int| 0 <= i < pieces.len() ==> (#[trigger] hex_group_of(pieces[i])) is Some {
        Some(Seq::new(pieces.len(), |i: int| hex_group_of(pieces[i])->0))
    } else {
        None
    }
}

/// The two groups that an IPv4 address fills at the end of an IPv6 address.
pub open spec fn ipv4_groups(a: Seq<u8>) -> Seq<u16> {
    seq![(a[0] * 256 + a[1]) as u16, (a[2] * 256 + a[3]) as u16]
}

/// The groups that the last pieces of an IPv6 address spell: groups, the last of which may
/// be an IPv4 address that counts for two.
pub open spec fn trailing_groups(pieces: Seq<Seq<char>>) -> Option<Seq<u16>> {
    if pieces.len() > 0 && ipv4_of(pieces.last()) is Some {
        match groups_of(pieces.drop_last()) {
            Some(g) => Some(g + ipv4_groups(ipv4_of(pieces.last())->0)),
            None => None,
        }
    } else {
        groups_of(pieces)
    }
}

/// The colon-separated pieces of `s`; none at all when `s` is empty.
pub open spec fn pieces_of(s: Seq<char>) -> Seq<Seq<char>> {
    if s.len() == 0 {
        Seq::empty()
    } else {
        split_on(s, ':')
    }
}

/// The position of the first `::` in `s` at or after `i`.
pub open spec fn double_colon_from(s: Seq<char>, i: int) -> Option<int>
    decreases s.len() - i,
{
    if 0 <= i && i + 1 < s.len() {
        if s[i] == ':' && s[i + 1] == ':' {
            Some(i)
        } else {
            double_colon_from(s, i + 1)
        }
    } else {
        None
    }
}

/// The eight groups of an IPv6 address: either written out in full, or with one `::`
/// that stands for one or more groups of zeros; an IPv4 address may end it.
pub open spec fn ipv6_of(s: Seq<char>) -> Option<Seq<u16>> {
    match double_colon_from(s, 0) {
        None => match trailing_groups(split_on(s, ':')) {
            Some(g) => if g.len() == 8 {
                Some(g)
            } else {
                None
            },
            None => None,
        },
        Some(k) => {
            let head = groups_of(pieces_of(s.subrange(0, k)));
            let tail = trailing_groups(pieces_of(s.subrange(k + 2, s.len() as int)));
            if head is Some && tail is Some && head->0.len() + tail->0.len() <= 7 {
                Some(
                    head->0 + Seq::new((8 - head->0.len() - tail->0.len()) as nat, |i: int| 0u16)
                        + tail->0,
                )
            } else {
                None
            }
        },
    }
}

/// The address that `s` spells, as the standard library reads it.
pub open spec fn ip_of(s: Seq<char>) -> Option<IpModel> {
    match ipv4_of(s) {
        Some(a) => Some(IpModel::V4(a)),
        None => match ipv6_of(s) {
            Some(g) => Some(IpModel::V6(g)),
            None => None,
        },
    }
}

fn octet_from(p: &Vec<char>) -> (r: Option<u8>)
    ensures
        r == octet_of(p@),
{
    if p.len() < 1 || p.len() > 3 || !('0' <= p[0] && p[0] <= '9') || (p.len() > 1 && p[0] == '0') {
        return None;
    }
    match decimal_of_chars(p, 255) {
        Some(n) => Some(n as u8),
        None => None,
    }
}

/// The octets of the IPv4 address that `v` spells.
fn ipv4_from(v: &Vec<char>) -> (r: Option<[u8; 4]>)
    ensures
        ipv4_of(v@) == (match r {
            Some(a) => Some(a@),
            None => None::<Seq<u8>>,
        }),
{
    let parts = split_chars(v, '.');
    let ghost ps = split_on(v@, '.');
    if parts.len() != 4 {
        return None;
    }
    let mut octets: [u8; 4] = [0, 0, 0, 0];
    let mut i: usize = 0;
    while i < 4
        invariant
            parts.len() == 4,
            parts@.map_values(|p: Vec<char>| p@) == ps,
            ps == split_on(v@, '.'),
            i <= 4,
            forall|k: int| 0 <= k < i ==> (#[trigger] octet_of(ps[k])) == Some(octets@[k]),
        decreases 4 - i,
    {
        assert(ps[i as int] == parts@[i as int]@);
        match octet_from(&parts[i]) {
            Some(o) => {
                octets[i] = o;
            },
            None => {
                assert(octet_of(ps[i as int]) is None);
                return None;
            },
        }
        i = i + 1;
    }
    assert(octets@ =~= Seq::new(4, |k: int| octet_of(ps[k])->0));
    Some(octets)
}

fn hex_digit_from(c: char) -> (r: Option<u32>)
    ensures
        match hex_digit(c) {
            Some(d) => r == Some(d as u32),
            None => r is None,
        },
{
    if '0' <= c && c <= '9' {
        Some(c as u32 - '0' as u32)
    } else if 'a' <= c && c <= 'f' {
        Some(c as u32 - 'a' as u32 + 10)
    } else if 'A' <= c && c <= 'F' {
        Some(c as u32 - 'A' as u32 + 10)
    } else {
        None
    }
}

/// Sixteen to the power `n`.
pub open spec fn pow16(n: nat) -> nat
    decreases n,
{
    if n == 0 {
        1
    } else {
        16 * pow16((n - 1) as nat)
    }
}

proof fn lemma_pow16_small()
    ensures
        pow16(0) == 1,
        pow16(1) == 16,
        pow16(2) == 256,
        pow16(3) == 4096,
        pow16(4) == 65536,
{
    reveal_with_fuel(pow16, 5);
}

fn hex_group_from(p: &Vec<char>) -> (r: Option<u16>)
    ensures
        r == hex_group_of(p@),
{
    if p.len() < 1 || p.len() > 4 {
        return None;
    }
    proof {
        lemma_pow16_small();
    }
    let mut acc: u32 = 0;
    let mut i: usize = 0;
    while i < p.len()
        invariant
            1 <= p.len() <= 4,
            i <= p.len(),
            forall|k: int| 0 <= k < i ==> (#[trigger] hex_digit(p@[k])) is Some,
            acc == hex_value(p@.subrange(0, i as int)),
            acc < pow16(i as nat),
            pow16(i as nat) <= 65536,
            pow16(3) == 4096,
            pow16(4) == 65536,
            i < p.len() ==> pow16(i as nat) <= 4096,
        decreases p.len() - i,
    {
        match hex_digit_from(p[i]) {
            Some(d) => {
                assert(p@.subrange(0, i + 1).drop_last() == p@.subrange(0, i as int));
                assert(acc * 16 + d < pow16(i as nat) * 16) by (nonlinear_arith)
                    requires acc < pow16(i as nat), d < 16;
                assert(pow16((i + 1) as nat) == 16 * pow16(i as nat));
                assert(i + 1 < p.len() ==> pow16(i as nat) <= 4096);
                acc = acc * 16 + d;
            },
            None => {
                assert(hex_digit(p@[i as int]) is None);
                return None;
            },
        }
        i = i + 1;
    }
    assert(p@.subrange(0, p.len() as int) == p@);
    Some(acc as u16)
}

/// The groups that the first `n` pieces spell.
fn groups_from(pieces: &Vec<Vec<char>>, n: usize) -> (r: Option<Vec<u16>>)
    requires
        n <= pieces.len(),
    ensures
        groups_of(pieces@.map_values(|p: Vec<char>| p@).subrange(0, n as int)) == (match r {
            Some(g) => Some(g@),
            None => None::<Seq<u16>>,
        }),
{
    let ghost pm = pieces@.map_values(|p: Vec<char>| p@).subrange(0, n as int);
    let mut out: Vec<u16> = Vec::new();
    let mut i: usize = 0;
    while i < n
        invariant
            n <= pieces.len(),
            pm == pieces@.map_values(|p: Vec<char>| p@).subrange(0, n as int),
            i <= n,
            out@.len() == i,
            forall|k: int| 0 <= k < i ==> (#[trigger] hex_group_of(pm[k])) == Some(out@[k]),
        decreases n - i,
    {
        assert(pm[i as int] == pieces@[i as int]@);
        match hex_group_from(&pieces[i]) {
            Some(g) => out.push(g),
            None => {
                assert(hex_group_of(pm[i as int]) is None);
                return None;
            },
        }
        i = i + 1;
    }
    assert(out@ =~= Seq::new(pm.len(), |k: int| hex_group_of(pm[k])->0));
    Some(out)
}

/// The groups that the last pieces of an IPv6 address spell.
fn trailing_groups_from(pieces: &Vec<Vec<char>>) -> (r: Option<Vec<u16>>)
    ensures
        trailing_groups(pieces@.map_values(|p: Vec<char>| p@)) == (match r {
            Some(g) => Some(g@),
            None => None::<Seq<u16>>,
        }),
{
    let ghost pm = pieces@.map_values(|p: Vec<char>| p@);
    assert(pm.subrange(0, pm.len() as int) == pm);
    if pieces.len() == 0 {
        return groups_from(pieces, 0);
    }
    let last = pieces.len() - 1;
    assert(pm.last() == pieces@[last as int]@);
    assert(pm.drop_last() == pm.subrange(0, last as int));
    match ipv4_from(&pieces[last]) {
        Some(a) => match groups_from(pieces, last) {
            Some(g) => {
                let mut out = g;
                let ghost before = out@;
                out.push((a[0] as u16) * 256 + (a[1] as u16));
                out.push((a[2] as u16) * 256 + (a[3] as u16));
                assert(out@ =~= before + ipv4_groups(a@));
                Some(out)
            },
            None => None,
        },
        None => groups_from(pieces, pieces.len()),
    }
}

fn subchars(v: &Vec<char>, lo: usize, hi: usize) -> (r: Vec<char>)
    requires
        lo <= hi <= v.len(),
    ensures
        r@ == v@.subrange(lo as int, hi as int),
{
    let mut out: Vec<char> = Vec::new();
    let mut i: usize = lo;
    while i < hi
        invariant
            lo <= i <= hi <= v.len(),
            out@ == v@.subrange(lo as int, i as int),
        decreases hi - i,
    {
        out.push(v[i]);
        i = i + 1;
        assert(out@ =~= v@.subrange(lo as int, i as int));
    }
    out
}

fn pieces_from(v: &Vec<char>) -> (r: Vec<Vec<char>>)
    ensures
        r@.map_values(|p: Vec<char>| p@) == pieces_of(v@),
{
    if v.len() == 0 {
        let out: Vec<Vec<char>> = Vec::new();
        assert(out@.map_values(|p: Vec<char>| p@) =~= Seq::<Seq<char>>::empty());
        out
    } else {
        split_chars(v, ':')
    }
}

fn double_colon_in(v: &Vec<char>) -> (r: Option<usize>)
    ensures
        double_colon_from(v@, 0) == (match r {
            Some(k) => Some(k as int),
            None => None::<int>,
        }),
        match r {
            Some(k) => k + 1 < v.len(),
            None => true,
        },
{
    if v.len() < 2 {
        return None;
    }
    let mut i: usize = 0;
    while i < v.len() - 1
        invariant
            v.len() >= 2,
            i <= v.len() - 1,
            double_colon_from(v@, 0) == double_colon_from(v@, i as int),
        decreases v.len() - i,
    {
        if v[i] == ':' && v[i + 1] == ':' {
            return Some(i);
        }
        i = i + 1;
    }
    None
}

fn eight_groups(g: &Vec<u16>) -> (r: [u16; 8])
    requires
        g.len() == 8,
    ensures
        r@ == g@,
{
    let mut out: [u16; 8] = [0, 0, 0, 0, 0, 0, 0, 0];
    let mut i: usize = 0;
    while i < 8
        invariant
            g.len() == 8,
            i <= 8,
            forall|k: int| 0 <= k < i ==> out@[k] == g@[k],
        decreases 8 - i,
    {
        out[i] = g[i];
        i = i + 1;
    }
    assert(out@ =~= g@);
    out
}

/// The groups of the IPv6 address that `v` spells.
fn ipv6_from(v: &Vec<char>) -> (r: Option<[u16; 8]>)
    ensures
        ipv6_of(v@) == (match r {
            Some(g) => Some(g@),
            None => None::<Seq<u16>>,
        }),
{
    match double_colon_in(v) {
        None => {
            let pieces = split_chars(v, ':');
            match trailing_groups_from(&pieces) {
                Some(g) => if g.len() == 8 {
                    Some(eight_groups(&g))
                } else {
                    None
                },
                None => None,
            }
        },
        Some(k) => {
            let head = subchars(v, 0, k);
            let tail = subchars(v, k + 2, v.len());
            let head_pieces = pieces_from(&head);
            let tail_pieces = pieces_from(&tail);
            assert(head_pieces@.map_values(|p: Vec<char>| p@).subrange(0, head_pieces.len() as int)
                == head_pieces@.map_values(|p: Vec<char>| p@));
            let hg = match groups_from(&head_pieces, head_pieces.len()) {
                Some(g) => g,
                None => return None,
            };
            let tg = match trailing_groups_from(&tail_pieces) {
                Some(g) => g,
                None => return None,
            };
            if hg.len() > 7 || tg.len() > 7 - hg.len() {
                return None;
            }
            let zeros: usize = 8 - hg.len() - tg.len();
            let mut out = hg;
            let ghost h = out@;
            let mut i: usize = 0;
            while i < zeros
                invariant
                    out@ == h + Seq::new(i as nat, |j: int| 0u16),
                    i <= zeros,
                decreases zeros - i,
            {
                out.push(0);
                i = i + 1;
                assert(out@ =~= h + Seq::new(i as nat, |j: int| 0u16));
            }
            let ghost hz = out@;
            let mut j: usize = 0;
            while j < tg.len()
                invariant
                    out@ == hz + tg@.subrange(0, j as int),
                    j <= tg.len(),
                decreases tg.len() - j,
            {
                out.push(tg[j]);
                j = j + 1;
                assert(out@ =~= hz + tg@.subrange(0, j as int));
            }
            assert(tg@.subrange(0, tg.len() as int) == tg@);
            assert(out@.len() == 8);
            Some(eight_groups(&out))
        },
    }
}

/// Reads an IP address written as text.
pub fn ip_address_of(s: &str) -> (r: Option<IpAddress>)
    ensures
        ip_of(s@) == (match r {
            Some(a) => Some(a@),
            None => None::<IpModel>,
        }),
{
    let v = chars_of(s);
    match ipv4_from(&v) {
        Some(a) => Some(IpAddress::V4(a)),
        None => match ipv6_from(&v) {
            Some(g) => Some(IpAddress::V6(g)),
            None => None,
        },
    }
}

} // verus!
