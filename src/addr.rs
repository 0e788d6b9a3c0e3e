//! The textual forms of IPv4 and IPv6 addresses that a profile accepts:
//! dotted-quad IPv4 (no leading zeros, octets up to 255) and the colon form
//! of IPv6 with at most one `::` and an optional trailing IPv4 part.
use vstd::prelude::*;
use crate::text::{split, split_chars, views, slice};

verus! {

pub open spec fn is_dec_digit(c: char) -> bool {
    '0' <= c && c <= '9'
}

pub open spec fn is_hex_digit(c: char) -> bool {
    is_dec_digit(c) || ('a' <= c && c <= 'f') || ('A' <= c && c <= 'F')
}

/// The value of a run of decimal digits.
pub open spec fn dec_value(s: Seq<char>) -> nat
    decreases s.len(),
{
    if s.len() == 0 {
        0
    } else {
        dec_value(s.drop_last()) * 10 + ((s.last() as u32) - ('0' as u32)) as nat
    }
}

/// One to three decimal digits, no leading zero, value at most 255.
pub open spec fn is_dec_octet(s: Seq<char>) -> bool {
    &&& 1 <= s.len() <= 3
    &&& forall|i: int| 0 <= i < s.len() ==> is_dec_digit(#[trigger] s[i])
    &&& !(s.len() > 1 && s[0] == '0')
    &&& dec_value(s) <= 255
}

/// Four decimal octets separated by dots.
pub open spec fn is_ipv4(s: Seq<char>) -> bool {
    let p = split(s, '.');
    &&& p.len() == 4
    &&& forall|i: int| 0 <= i < 4 ==> is_dec_octet(#[trigger] p[i])
}

/// One to four hexadecimal digits.
pub open spec fn is_hex_group(s: Seq<char>) -> bool {
    &&& 1 <= s.len() <= 4
    &&& forall|i: int| 0 <= i < s.len() ==> is_hex_digit(#[trigger] s[i])
}

pub open spec fn all_hex_groups(p: Seq<Seq<char>>) -> bool {
    forall|i: int| 0 <= i < p.len() ==> is_hex_group(#[trigger] p[i])
}

/// Hexadecimal groups followed by an embedded IPv4 address.
pub open spec fn ends_with_ipv4(p: Seq<Seq<char>>) -> bool {
    &&& p.len() >= 1
    &&& all_hex_groups(p.drop_last())
    &&& is_ipv4(p.last())
}

/// The number of 16-bit groups that a list of pieces stands for: an
/// embedded IPv4 address counts as two.
pub open spec fn width(p: Seq<Seq<char>>) -> int {
    if ends_with_ipv4(p) {
        (p.len() + 1) as int
    } else {
        p.len() as int
    }
}

/// The colon-separated pieces of one side of a `::`; an empty side has none.
pub open spec fn pieces(s: Seq<char>) -> Seq<Seq<char>> {
    if s.len() == 0 {
        Seq::<Seq<char>>::empty()
    } else {
        split(s, ':')
    }
}

pub open spec fn double_colon_at(s: Seq<char>, k: int) -> bool {
    0 <= k && k + 1 < s.len() && s[k] == ':' && s[k + 1] == ':'
}

pub open spec fn first_double_colon(s: Seq<char>, k: int) -> bool {
    &&& double_colon_at(s, k)
    &&& forall|j: int| 0 <= j < k ==> !double_colon_at(s, j)
}

/// The uncompressed IPv6 form: eight groups, or six groups and an IPv4 address.
pub open spec fn is_ipv6_full(s: Seq<char>) -> bool {
    let p = split(s, ':');
    (all_hex_groups(p) && p.len() == 8) || (ends_with_ipv4(p) && p.len() == 7)
}

/// The compressed IPv6 form with its `::` at `k`: groups before it, groups
/// (possibly ending in an IPv4 address) after it, at most seven in all.
pub open spec fn is_ipv6_compressed_at(s: Seq<char>, k: int) -> bool {
    let h = pieces(s.subrange(0, k));
    let t = pieces(s.subrange(k + 2, s.len() as int));
    &&& all_hex_groups(h)
    &&& (all_hex_groups(t) || ends_with_ipv4(t))
    &&& h.len() + width(t) <= 7
}

pub open spec fn is_ipv6(s: Seq<char>) -> bool {
    ||| (forall|k: int| !double_colon_at(s, k)) && is_ipv6_full(s)
    ||| exists|k: int| first_double_colon(s, k) && is_ipv6_compressed_at(s, k)
}

/// The address form that a profile of the given family requires.
pub open spec fn is_address(s: Seq<char>, v6: bool) -> bool {
    if v6 {
        is_ipv6(s)
    } else {
        is_ipv4(s)
    }
}

fn dec_digit(c: char) -> (r: bool)
    ensures
        r == is_dec_digit(c),
{
    '0' <= c && c <= '9'
}

fn hex_digit(c: char) -> (r: bool)
    ensures
        r == is_hex_digit(c),
{
    ('0' <= c && c <= '9') || ('a' <= c && c <= 'f') || ('A' <= c && c <= 'F')
}

pub fn dec_octet(s: &Vec<char>) -> (r: bool)
    ensures
        r == is_dec_octet(s@),
{
    if s.len() < 1 || s.len() > 3 {
        return false;
    }
    let mut value: u32 = 0;
    let mut i: usize = 0;
    while i < s.len()
        invariant
            1 <= s.len() <= 3,
            i <= s.len(),
            forall|j: int| 0 <= j < i ==> is_dec_digit(#[trigger] s@[j]),
            value == dec_value(s@.subrange(0, i as int)),
            i == 0 ==> value == 0,
            i == 1 ==> value < 10,
            i == 2 ==> value < 100,
        decreases s.len() - i,
    {
        let c = s[i];
        if !dec_digit(c) {
            return false;
        }
        let ghost next = s@.subrange(0, i + 1);
        assert(next.drop_last() =~= s@.subrange(0, i as int));
        let d: u32 = (c as u32) - ('0' as u32);
        value = value * 10 + d;
        i += 1;
    }
    assert(s@.subrange(0, s@.len() as int) =~= s@);
    if s.len() > 1 && s[0] == '0' {
        false
    } else {
        value <= 255
    }
}

pub fn hex_group(s: &Vec<char>) -> (r: bool)
    ensures
        r == is_hex_group(s@),
{
    if s.len() < 1 || s.len() > 4 {
        return false;
    }
    let mut i: usize = 0;
    while i < s.len()
        invariant
            i <= s.len(),
            forall|j: int| 0 <= j < i ==> is_hex_digit(#[trigger] s@[j]),
        decreases s.len() - i,
    {
        if !hex_digit(s[i]) {
            return false;
        }
        i += 1;
    }
    true
}

pub fn ipv4(s: &Vec<char>) -> (r: bool)
    ensures
        r == is_ipv4(s@),
{
    let p = split_chars(s, '.');
    assert(p@.len() == split(s@, '.').len());
    if p.len() != 4 {
        return false;
    }
    let mut i: usize = 0;
    while i < 4
        invariant
            p@.len() == 4,
            views(p@) == split(s@, '.'),
            i <= 4,
            forall|j: int| 0 <= j < i ==> is_dec_octet(#[trigger] split(s@, '.')[j]),
        decreases 4 - i,
    {
        assert(views(p@)[i as int] == p@[i as int]@);
        if !dec_octet(&p[i]) {
            return false;
        }
        i += 1;
    }
    true
}

fn hex_groups(p: &Vec<Vec<char>>, n: usize) -> (r: bool)
    requires
        n <= p@.len(),
    ensures
        r == all_hex_groups(views(p@).subrange(0, n as int)),
{
    let ghost v = views(p@).subrange(0, n as int);
    let mut i: usize = 0;
    while i < n
        invariant
            n <= p@.len(),
            v == views(p@).subrange(0, n as int),
            i <= n,
            forall|j: int| 0 <= j < i ==> is_hex_group(#[trigger] v[j]),
        decreases n - i,
    {
        assert(v[i as int] == p@[i as int]@);
        if !hex_group(&p[i]) {
            return false;
        }
        i += 1;
    }
    true
}

/// Whether the pieces are all hexadecimal groups, and whether they are
/// hexadecimal groups followed by an IPv4 address.
fn classify(p: &Vec<Vec<char>>) -> (r: (bool, bool))
    ensures
        r.0 == all_hex_groups(views(p@)),
        r.1 == ends_with_ipv4(views(p@)),
{
    let all = hex_groups(p, p.len());
    assert(views(p@).subrange(0, p@.len() as int) =~= views(p@));
    if p.len() == 0 {
        return (all, false);
    }
    let n = p.len() - 1;
    assert(views(p@).drop_last() =~= views(p@).subrange(0, n as int));
    let head = hex_groups(p, n);
    assert(views(p@).last() == p@[n as int]@);
    if !head {
        return (all, false);
    }
    (all, ipv4(&p[n]))
}

fn side_pieces(s: &Vec<char>) -> (r: Vec<Vec<char>>)
    ensures
        views(r@) == pieces(s@),
{
    if s.len() == 0 {
        let r: Vec<Vec<char>> = Vec::new();
        assert(views(r@) =~= Seq::<Seq<char>>::empty());
        r
    } else {
        split_chars(s, ':')
    }
}

pub fn ipv6(s: &Vec<char>) -> (r: bool)
    ensures
        r == is_ipv6(s@),
{
    let mut k: usize = 0;
    let mut found = false;
    while !found && k < s.len()
        invariant
            k <= s.len(),
            forall|j: int| 0 <= j < k ==> !double_colon_at(s@, j),
            found ==> double_colon_at(s@, k as int),
        decreases s.len() - k + (if found { 0int } else { 1int }),
    {
        if k + 1 < s.len() && s[k] == ':' && s[k + 1] == ':' {
            found = true;
        } else {
            k += 1;
        }
    }
    if !found {
        assert forall|j: int| !double_colon_at(s@, j) by {
            if 0 <= j && j + 1 < s@.len() {
                assert(j < k);
            }
        }
        let p = split_chars(s, ':');
        let (all, v4) = classify(&p);
        assert(p@.len() == split(s@, ':').len());
        (all && p.len() == 8) || (v4 && p.len() == 7)
    } else {
        assert(first_double_colon(s@, k as int));
        let h = side_pieces(&slice(s, 0, k));
        let t = side_pieces(&slice(s, k + 2, s.len()));
        let (h_all, _) = classify(&h);
        let (t_all, t_v4) = classify(&t);
        assert(h@.len() == views(h@).len());
        assert(t@.len() == views(t@).len());
        let ok = h_all && (t_all || t_v4) && h.len() <= 7 && t.len() <= 7 && h.len() + t.len()
            + (if t_v4 { 1 } else { 0 }) <= 7;
        assert(!double_colon_at(s@, -1));
        if !ok {
            assert forall|j: int| first_double_colon(s@, j) implies j == k by {
                if j < k {
                } else if j > k {
                    assert(!double_colon_at(s@, k as int));
                }
            }
        }
        ok
    }
}

/// Whether `s` is an address of the given family.
pub fn address(s: &Vec<char>, v6: bool) -> (r: bool)
    ensures
        r == is_address(s@, v6),
{
    if v6 {
        ipv6(s)
    } else {
        ipv4(s)
    }
}

} // verus!
