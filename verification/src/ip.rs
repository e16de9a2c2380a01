//! Network addresses as plain numbers: the special ranges the policies name,
//! address blocks in prefix notation, and the text form of both.
//!
//! Two text forms are read: the dotted quad `a.b.c.d`, each field a decimal
//! numeral from 0 to 255 without leading zeros, and eight groups of one to
//! four hexadecimal digits with colons between them, where `::` may stand
//! once for the zero groups that are left out. A block is an address,
//! optionally followed by `/n` with `n` no more than the width of the
//! address.

use vstd::prelude::*;
use crate::text::{
    chars_of, decimal, is_digit, is_numeral, lemma_decimal_value, lemma_numeral_is_decimal,
    numeral_value, text_set,
};

verus! {

/// A destination address: 32 bits of the one family, 128 bits of the other,
/// most significant bit first.
#[derive(Debug, Clone, Copy, PartialEq, Eq, Structural)]
pub enum IpAddress {
    V4(u32),
    V6(u128),
}

/// An address block in prefix notation: the addresses that agree with `base`
/// in their first `prefix_len` bits.
#[derive(Debug, Clone, Copy, PartialEq, Eq, Structural)]
pub struct IpBlock {
    pub base: IpAddress,
    pub prefix_len: u8,
}

/// The 32-bit address of the four fields `a.b.c.d`.
pub open spec fn quad(a: nat, b: nat, c: nat, d: nat) -> nat {
    ((a * 256 + b) * 256 + c) * 256 + d
}

impl IpAddress {
    /// `127.0.0.0/8`, or the address `::1`.
    pub open spec fn loopback(self) -> bool {
        match self {
            IpAddress::V4(a) => a / 0x100_0000 == 127,
            IpAddress::V6(a) => a == 1,
        }
    }

    /// The private ranges `10.0.0.0/8`, `172.16.0.0/12` and `192.168.0.0/16`,
    /// or the unique local range `fc00::/7`.
    pub open spec fn private_lan(self) -> bool {
        match self {
            IpAddress::V4(a) => a / 0x100_0000 == 10 || a / 0x10_0000 == 0xAC1 || a / 0x1_0000
                == 0xC0A8,
            IpAddress::V6(a) => a / 0x200_0000_0000_0000_0000_0000_0000_0000 == 0x7E,
        }
    }

    pub fn is_loopback(&self) -> (r: bool)
        ensures
            r == self.loopback(),
    {
        match self {
            IpAddress::V4(a) => *a / 0x100_0000 == 127,
            IpAddress::V6(a) => *a == 1,
        }
    }

    pub fn is_private_lan(&self) -> (r: bool)
        ensures
            r == self.private_lan(),
    {
        match self {
            IpAddress::V4(a) => *a / 0x100_0000 == 10 || *a / 0x10_0000 == 0xAC1 || *a / 0x1_0000
                == 0xC0A8,
            IpAddress::V6(a) => *a / 0x200_0000_0000_0000_0000_0000_0000_0000 == 0x7E,
        }
    }

    /// The address `a.b.c.d`.
    pub fn from_octets(a: u8, b: u8, c: u8, d: u8) -> (r: IpAddress)
        ensures
            r == IpAddress::V4(quad(a as nat, b as nat, c as nat, d as nat) as u32),
    {
        let x: u32 = ((a as u32 * 256 + b as u32) * 256 + c as u32) * 256 + d as u32;
        IpAddress::V4(x)
    }
}

impl IpBlock {
    /// A block is well formed when its prefix is no longer than an address
    /// of its family.
    pub open spec fn well_formed(self) -> bool {
        match self.base {
            IpAddress::V4(_) => self.prefix_len <= 32,
            IpAddress::V6(_) => self.prefix_len <= 128,
        }
    }

    /// Membership: same family, and the first `prefix_len` bits agree. A
    /// block that is not well formed has no members.
    pub open spec fn holds(self, addr: IpAddress) -> bool {
        match (self.base, addr) {
            (IpAddress::V4(b), IpAddress::V4(a)) => self.prefix_len <= 32 && (self.prefix_len == 0
                || a >> ((32 - self.prefix_len) as u32) == b >> ((32 - self.prefix_len) as u32)),
            (IpAddress::V6(b), IpAddress::V6(a)) => self.prefix_len <= 128 && (self.prefix_len
                == 0 || a >> ((128 - self.prefix_len) as u128) == b >> ((128
                - self.prefix_len) as u128)),
            _ => false,
        }
    }

    /// The block that holds `addr` and nothing else.
    pub open spec fn single(addr: IpAddress) -> IpBlock {
        match addr {
            IpAddress::V4(_) => IpBlock { base: addr, prefix_len: 32 },
            IpAddress::V6(_) => IpBlock { base: addr, prefix_len: 128 },
        }
    }

    /// The block that holds `addr` and nothing else.
    pub fn exact(addr: IpAddress) -> (r: IpBlock)
        ensures
            r == IpBlock::single(addr),
            r.well_formed(),
            forall|other: IpAddress| r.holds(other) <==> other == addr,
    {
        proof {
            assert forall|other: IpAddress| IpBlock::single(addr).holds(other) <==> other
                == addr by {
                lemma_single_holds_only_itself(addr, other);
            }
        }
        match addr {
            IpAddress::V4(_) => IpBlock { base: addr, prefix_len: 32 },
            IpAddress::V6(_) => IpBlock { base: addr, prefix_len: 128 },
        }
    }

    pub fn contains(&self, addr: &IpAddress) -> (r: bool)
        ensures
            r == self.holds(*addr),
    {
        match (self.base, *addr) {
            (IpAddress::V4(b), IpAddress::V4(a)) => {
                if self.prefix_len > 32 {
                    false
                } else if self.prefix_len == 0 {
                    true
                } else {
                    let shift: u32 = (32 - self.prefix_len) as u32;
                    a >> shift == b >> shift
                }
            },
            (IpAddress::V6(b), IpAddress::V6(a)) => {
                if self.prefix_len > 128 {
                    false
                } else if self.prefix_len == 0 {
                    true
                } else {
                    let shift: u128 = (128 - self.prefix_len) as u128;
                    a >> shift == b >> shift
                }
            },
            _ => false,
        }
    }
}

/// A block of full prefix length holds its base address and no other.
pub proof fn lemma_single_holds_only_itself(a: IpAddress, b: IpAddress)
    ensures
        IpBlock::single(a).holds(b) <==> a == b,
{
    match (a, b) {
        (IpAddress::V4(x), IpAddress::V4(y)) => {
            assert(x >> 0u32 == x && y >> 0u32 == y) by (bit_vector);
        },
        (IpAddress::V6(x), IpAddress::V6(y)) => {
            assert(x >> 0u128 == x && y >> 0u128 == y) by (bit_vector);
        },
        _ => {},
    }
}

/// The number of a numeral that does not exceed `limit`.
pub open spec fn bounded_numeral(s: Seq<char>, limit: nat) -> Option<nat> {
    if is_numeral(s) && numeral_value(s) <= limit {
        Some(numeral_value(s))
    } else {
        None
    }
}

/// Where the run of digits that starts at `i` ends: the first position from
/// `i` on that holds no digit, or the end of the text.
pub open spec fn run_end(s: Seq<char>, i: int) -> int
    decreases s.len() - i,
{
    if i < 0 || i >= s.len() || !is_digit(s[i]) {
        i
    } else {
        run_end(s, i + 1)
    }
}

/// The field of `s` that starts at `from`: the longest run of digits there,
/// read as a numeral of at most `limit`.
pub open spec fn field(s: Seq<char>, from: int, limit: nat) -> Option<nat> {
    if 0 <= from <= s.len() {
        bounded_numeral(s.subrange(from, run_end(s, from)), limit)
    } else {
        None
    }
}

/// Whether position `i` of `s` holds the character `c`.
pub open spec fn holds_char(s: Seq<char>, i: int, c: char) -> bool {
    0 <= i < s.len() && s[i] == c
}

/// The 32-bit address that `s` writes as a dotted quad: four fields of at
/// most 255, a dot after each of the first three, and nothing after the
/// fourth.
pub open spec fn quad_of(s: Seq<char>) -> Option<u32> {
    let e0 = run_end(s, 0);
    let e1 = run_end(s, e0 + 1);
    let e2 = run_end(s, e1 + 1);
    let e3 = run_end(s, e2 + 1);
    if holds_char(s, e0, '.') && holds_char(s, e1, '.') && holds_char(s, e2, '.') && e3 == s.len()
        && field(s, 0, 255) is Some && field(s, e0 + 1, 255) is Some && field(s, e1 + 1, 255)
        is Some && field(s, e2 + 1, 255) is Some {
        Some(
            quad(
                field(s, 0, 255)->0,
                field(s, e0 + 1, 255)->0,
                field(s, e1 + 1, 255)->0,
                field(s, e2 + 1, 255)->0,
            ) as u32,
        )
    } else {
        None
    }
}

/// A hexadecimal digit, in either case.
pub open spec fn is_hex(c: char) -> bool {
    ('0' <= c <= '9') || ('a' <= c <= 'f') || ('A' <= c <= 'F')
}

/// The number a hexadecimal digit stands for.
pub open spec fn hex_digit_value(c: char) -> nat {
    if '0' <= c <= '9' {
        (c as int - '0' as int) as nat
    } else if 'a' <= c <= 'f' {
        (c as int - 'a' as int + 10) as nat
    } else {
        (c as int - 'A' as int + 10) as nat
    }
}

/// The number a string of hexadecimal digits stands for.
pub open spec fn hex_value(s: Seq<char>) -> nat
    decreases s.len(),
{
    if s.len() == 0 {
        0
    } else {
        hex_value(s.drop_last()) * 16 + hex_digit_value(s.last())
    }
}

/// Where the run of hexadecimal digits that starts at `i` ends.
pub open spec fn hex_run_end(s: Seq<char>, i: int) -> int
    decreases s.len() - i,
{
    if i < 0 || i >= s.len() || !is_hex(s[i]) {
        i
    } else {
        hex_run_end(s, i + 1)
    }
}

/// The group of `s` that starts at `from`: the longest run of hexadecimal
/// digits there, which must have one to four of them.
pub open spec fn group(s: Seq<char>, from: int) -> Option<nat> {
    if 0 <= from <= s.len() && 1 <= hex_run_end(s, from) - from <= 4 {
        Some(hex_value(s.subrange(from, hex_run_end(s, from))))
    } else {
        None
    }
}

/// The groups that stand in `s` from `from` on, each but the first after a
/// single colon, `limit` of them at most, and where the last of them ends.
/// Where no group starts at `from` there are none, and they end at `from`.
pub open spec fn groups(s: Seq<char>, from: int, limit: nat) -> (Seq<nat>, int)
    decreases limit,
{
    if limit == 0 || group(s, from) is None {
        (Seq::empty(), from)
    } else {
        let e = hex_run_end(s, from);
        if limit > 1 && holds_char(s, e, ':') && group(s, e + 1) is Some {
            let rest = groups(s, e + 1, (limit - 1) as nat);
            (seq![group(s, from)->0] + rest.0, rest.1)
        } else {
            (seq![group(s, from)->0], e)
        }
    }
}

/// The 128-bit address of eight groups, the first the most significant.
pub open spec fn eight(g: Seq<nat>) -> nat {
    g[0] * 0x1_0000_0000_0000_0000_0000_0000_0000 + g[1] * 0x1_0000_0000_0000_0000_0000_0000 + g[2]
        * 0x1_0000_0000_0000_0000_0000 + g[3] * 0x1_0000_0000_0000_0000 + g[4] * 0x1_0000_0000_0000
        + g[5] * 0x1_0000_0000 + g[6] * 0x1_0000 + g[7]
}

/// As many zero groups as given.
pub open spec fn zero_groups(n: nat) -> Seq<nat> {
    Seq::new(n, |i: int| 0nat)
}

/// The 128-bit address that `s` writes in groups of hexadecimal digits:
/// eight groups with a colon between neighbours, or fewer with `::` in one
/// place, which stands for the zero groups that are missing, one at least.
pub open spec fn groups_of(s: Seq<char>) -> Option<u128> {
    let head = groups(s, 0, 8);
    if head.0.len() == 8 {
        if head.1 == s.len() {
            Some(eight(head.0) as u128)
        } else {
            None
        }
    } else if holds_char(s, head.1, ':') && holds_char(s, head.1 + 1, ':') {
        let tail = groups(s, head.1 + 2, (7 - head.0.len()) as nat);
        if tail.1 == s.len() {
            Some(
                eight(
                    head.0 + zero_groups((8 - head.0.len() - tail.0.len()) as nat) + tail.0,
                ) as u128,
            )
        } else {
            None
        }
    } else {
        None
    }
}

/// The address that a text writes: a dotted quad, or groups of hexadecimal
/// digits.
pub open spec fn address_of(s: Seq<char>) -> Option<IpAddress> {
    match quad_of(s) {
        Some(a) => Some(IpAddress::V4(a)),
        None => match groups_of(s) {
            Some(a) => Some(IpAddress::V6(a)),
            None => None,
        },
    }
}

/// Where the first slash of `s` from `i` on stands, or the end of `s`.
pub open spec fn slash_at(s: Seq<char>, i: int) -> int
    decreases s.len() - i,
{
    if i < 0 || i >= s.len() || s[i] == '/' {
        i
    } else {
        slash_at(s, i + 1)
    }
}

/// The longest prefix that an address of this family can have.
pub open spec fn width_of(addr: IpAddress) -> nat {
    match addr {
        IpAddress::V4(_) => 32,
        IpAddress::V6(_) => 128,
    }
}

/// The block that a text writes: an address alone stands for the block of
/// that one address, an address followed by a slash and a numeral for the
/// block of that prefix length, which must not exceed the width of the
/// address.
pub open spec fn block_of(s: Seq<char>) -> Option<IpBlock> {
    let cut = slash_at(s, 0);
    match address_of(s.take(cut)) {
        None => None,
        Some(a) => if cut == s.len() {
            Some(IpBlock::single(a))
        } else {
            match bounded_numeral(s.skip(cut + 1), width_of(a)) {
                Some(n) => Some(IpBlock { base: a, prefix_len: n as u8 }),
                None => None,
            }
        },
    }
}

/// The dotted quad of a 32-bit address: its four bytes as numerals, the most
/// significant first, with dots between them.
pub open spec fn quad_text(a: u32) -> Seq<char> {
    decimal((a / 0x100_0000) as nat).push('.') + decimal((a / 0x1_0000 % 256) as nat).push('.')
        + decimal((a / 0x100 % 256) as nat).push('.') + decimal((a % 256) as nat)
}

/// A run of digits that starts at `i` ends at `j` when digits stand from `i`
/// up to `j` and none stands at `j`.
proof fn lemma_run_stops(s: Seq<char>, i: int, j: int)
    requires
        0 <= i <= j <= s.len(),
        forall|k: int| i <= k < j ==> is_digit(#[trigger] s[k]),
        j == s.len() || !is_digit(s[j]),
    ensures
        run_end(s, i) == j,
    decreases j - i,
{
    if i < j {
        lemma_run_stops(s, i + 1, j);
    }
}

/// The field of a text at the place where the numeral of `n` stands, with
/// no digit after it, is `n`.
proof fn lemma_field_reads_numeral(s: Seq<char>, from: int, n: nat, limit: nat)
    requires
        0 <= from,
        from + decimal(n).len() <= s.len(),
        s.subrange(from, from + decimal(n).len()) == decimal(n),
        from + decimal(n).len() == s.len() || !is_digit(s[from + decimal(n).len()]),
        n <= limit,
    ensures
        run_end(s, from) == from + decimal(n).len(),
        field(s, from, limit) == Some(n),
{
    let d = decimal(n);
    let to = from + d.len();
    lemma_decimal_value(n);
    assert forall|k: int| from <= k < to implies is_digit(#[trigger] s[k]) by {
        assert(s[k] == s.subrange(from, to)[k - from]);
        assert(is_digit(d[k - from]));
    }
    lemma_run_stops(s, from, to);
}

/// Reading the dotted quad of an address gives the address back.
pub proof fn lemma_quad_round_trip(a: u32)
    ensures
        quad_of(quad_text(a)) == Some(a),
        address_of(quad_text(a)) == Some(IpAddress::V4(a)),
{
    let o0 = (a / 0x100_0000) as nat;
    let o1 = (a / 0x1_0000 % 256) as nat;
    let o2 = (a / 0x100 % 256) as nat;
    let o3 = (a % 256) as nat;
    let (d0, d1, d2, d3) = (decimal(o0), decimal(o1), decimal(o2), decimal(o3));
    let s = quad_text(a);
    let p1 = d0.len() as int;
    let p2 = p1 + 1 + d1.len();
    let p3 = p2 + 1 + d2.len();
    assert(s.len() == p3 + 1 + d3.len());
    assert(s.subrange(0, p1) =~= d0);
    assert(s.subrange(p1 + 1, p2) =~= d1);
    assert(s.subrange(p2 + 1, p3) =~= d2);
    assert(s.subrange(p3 + 1, s.len() as int) =~= d3);
    assert(s[p1] == '.' && s[p2] == '.' && s[p3] == '.');
    lemma_field_reads_numeral(s, 0, o0, 255);
    lemma_field_reads_numeral(s, p1 + 1, o1, 255);
    lemma_field_reads_numeral(s, p2 + 1, o2, 255);
    lemma_field_reads_numeral(s, p3 + 1, o3, 255);
    assert(quad(o0, o1, o2, o3) == a);
}

/// A text that writes an address as a dotted quad is the dotted quad of
/// that address: an address is written in one way only.
pub proof fn lemma_quad_is_canonical(s: Seq<char>)
    requires
        quad_of(s) is Some,
    ensures
        s == quad_text(quad_of(s)->0),
{
    let e0 = run_end(s, 0);
    let e1 = run_end(s, e0 + 1);
    let e2 = run_end(s, e1 + 1);
    let e3 = run_end(s, e2 + 1);
    lemma_run_end(s, 0);
    lemma_run_end(s, e0 + 1);
    lemma_run_end(s, e1 + 1);
    lemma_run_end(s, e2 + 1);
    let f0 = s.subrange(0, e0);
    let f1 = s.subrange(e0 + 1, e1);
    let f2 = s.subrange(e1 + 1, e2);
    let f3 = s.subrange(e2 + 1, e3);
    lemma_numeral_is_decimal(f0);
    lemma_numeral_is_decimal(f1);
    lemma_numeral_is_decimal(f2);
    lemma_numeral_is_decimal(f3);
    let (o0, o1, o2, o3) = (
        numeral_value(f0),
        numeral_value(f1),
        numeral_value(f2),
        numeral_value(f3),
    );
    let a = quad_of(s)->0;
    assert(a == quad(o0, o1, o2, o3));
    assert(o0 == a / 0x100_0000 && o1 == a / 0x1_0000 % 256 && o2 == a / 0x100 % 256 && o3 == a
        % 256);
    assert(s =~= f0.push('.') + f1.push('.') + f2.push('.') + f3);
}

/// A run of digits ends within the text, at a position that holds no digit,
/// and holds digits only.
pub proof fn lemma_run_end(s: Seq<char>, i: int)
    requires
        0 <= i <= s.len(),
    ensures
        i <= run_end(s, i) <= s.len(),
        run_end(s, i) < s.len() ==> !is_digit(s[run_end(s, i)]),
        forall|j: int| i <= j < run_end(s, i) ==> is_digit(#[trigger] s[j]),
    decreases s.len() - i,
{
    if i < s.len() && is_digit(s[i]) {
        lemma_run_end(s, i + 1);
    }
}

/// Reads the field that starts at `from`: where its run of digits ends, and
/// its number if the run is a numeral of at most `limit`.
fn scan_field(s: &Vec<char>, from: usize, limit: u32) -> (r: (Option<u32>, usize))
    requires
        from <= s.len(),
        limit <= 100_000,
    ensures
        r.1 == run_end(s@, from as int),
        from <= r.1 <= s.len(),
        match r.0 {
            Some(v) => field(s@, from as int, limit as nat) == Some(v as nat),
            None => field(s@, from as int, limit as nat) is None,
        },
{
    let mut i: usize = from;
    let mut value: u32 = 0;
    let mut too_large: bool = false;
    proof {
        assert(s@.subrange(from as int, from as int) =~= Seq::<char>::empty());
    }
    while i < s.len() && s[i] >= '0' && s[i] <= '9'
        invariant
            from <= i <= s.len(),
            limit <= 100_000,
            run_end(s@, from as int) == run_end(s@, i as int),
            forall|j: int| from <= j < i ==> is_digit(#[trigger] s@[j]),
            too_large ==> numeral_value(s@.subrange(from as int, i as int)) > limit,
            !too_large ==> value == numeral_value(s@.subrange(from as int, i as int)) && value
                <= limit,
        decreases s.len() - i,
    {
        let c: char = s[i];
        proof {
            let next = s@.subrange(from as int, i + 1);
            assert(next.drop_last() =~= s@.subrange(from as int, i as int));
            assert(next.last() == c);
        }
        if !too_large {
            let d: u32 = (c as u32) - ('0' as u32);
            let grown: u32 = value * 10 + d;
            if grown > limit {
                too_large = true;
            } else {
                value = grown;
            }
        }
        i += 1;
    }
    let ghost run = s@.subrange(from as int, i as int);
    proof {
        assert forall|j: int| 0 <= j < run.len() implies is_digit(#[trigger] run[j]) by {
            assert(is_digit(s@[from + j]));
        }
    }
    let well_written: bool = i > from && (i - from == 1 || s[from] != '0');
    if well_written && !too_large {
        (Some(value), i)
    } else {
        (None, i)
    }
}

/// Reads a dotted quad.
fn scan_quad(s: &Vec<char>) -> (r: Option<u32>)
    ensures
        r == quad_of(s@),
{
    let (f0, e0) = scan_field(s, 0, 255);
    if e0 >= s.len() || s[e0] != '.' {
        return None;
    }
    let (f1, e1) = scan_field(s, e0 + 1, 255);
    if e1 >= s.len() || s[e1] != '.' {
        return None;
    }
    let (f2, e2) = scan_field(s, e1 + 1, 255);
    if e2 >= s.len() || s[e2] != '.' {
        return None;
    }
    let (f3, e3) = scan_field(s, e2 + 1, 255);
    if e3 != s.len() {
        return None;
    }
    match (f0, f1, f2, f3) {
        (Some(a), Some(b), Some(c), Some(d)) => {
            let x: u32 = ((a * 256 + b) * 256 + c) * 256 + d;
            Some(x)
        },
        _ => None,
    }
}

/// Reads the group that starts at `from`: where its run of hexadecimal
/// digits ends, and its number if the run has one to four digits.
fn scan_group(s: &Vec<char>, from: usize) -> (r: (Option<u16>, usize))
    requires
        from <= s.len(),
    ensures
        r.1 == hex_run_end(s@, from as int),
        from <= r.1 <= s.len(),
        match r.0 {
            Some(v) => group(s@, from as int) == Some(v as nat),
            None => group(s@, from as int) is None,
        },
{
    let mut i: usize = from;
    let mut value: u32 = 0;
    proof {
        assert(s@.subrange(from as int, from as int) =~= Seq::<char>::empty());
    }
    while i < s.len() && ((s[i] >= '0' && s[i] <= '9') || (s[i] >= 'a' && s[i] <= 'f') || (s[i]
        >= 'A' && s[i] <= 'F'))
        invariant
            from <= i <= s.len(),
            hex_run_end(s@, from as int) == hex_run_end(s@, i as int),
            i - from <= 4 ==> value == hex_value(s@.subrange(from as int, i as int)),
            i - from == 0 ==> value == 0,
            i - from == 1 ==> value < 0x10,
            i - from == 2 ==> value < 0x100,
            i - from == 3 ==> value < 0x1000,
            i - from >= 4 ==> value < 0x1_0000,
        decreases s.len() - i,
    {
        let c: char = s[i];
        proof {
            let next = s@.subrange(from as int, i + 1);
            assert(next.drop_last() =~= s@.subrange(from as int, i as int));
            assert(next.last() == c);
        }
        if i - from < 4 {
            let d: u32 = if c >= '0' && c <= '9' {
                (c as u32) - ('0' as u32)
            } else if c >= 'a' && c <= 'f' {
                (c as u32) - ('a' as u32) + 10
            } else {
                (c as u32) - ('A' as u32) + 10
            };
            value = value * 16 + d;
        }
        i += 1;
    }
    if i > from && i - from <= 4 {
        (Some(value as u16), i)
    } else {
        (None, i)
    }
}

/// Reads the groups that stand from `from` on, `limit` of them at most, and
/// where the last of them ends.
fn scan_groups(s: &Vec<char>, from: usize, limit: usize) -> (r: (Vec<u16>, usize))
    requires
        from <= s.len(),
    ensures
        r.0.len() == groups(s@, from as int, limit as nat).0.len(),
        forall|i: int| 0 <= i < r.0.len() ==> r.0[i] as nat == groups(s@, from as int, limit as nat).0[i],
        r.1 == groups(s@, from as int, limit as nat).1,
        r.0.len() <= limit,
        from <= r.1 <= s.len(),
    decreases limit,
{
    let mut out: Vec<u16> = Vec::new();
    if limit == 0 {
        return (out, from);
    }
    let (first, e) = scan_group(s, from);
    match first {
        None => (out, from),
        Some(g) => {
            out.push(g);
            if limit > 1 && e < s.len() && s[e] == ':' {
                let (next, _) = scan_group(s, e + 1);
                if next.is_some() {
                    let (mut rest, end) = scan_groups(s, e + 1, limit - 1);
                    out.append(&mut rest);
                    return (out, end);
                }
            }
            (out, e)
        },
    }
}

/// The 128-bit address of eight groups.
fn join_groups(g: &Vec<u16>) -> (r: u128)
    requires
        g.len() == 8,
    ensures
        r == eight(Seq::new(8, |i: int| g[i] as nat)),
{
    (g[0] as u128) * 0x1_0000_0000_0000_0000_0000_0000_0000 + (g[1] as u128)
        * 0x1_0000_0000_0000_0000_0000_0000 + (g[2] as u128) * 0x1_0000_0000_0000_0000_0000 + (
    g[3] as u128) * 0x1_0000_0000_0000_0000 + (g[4] as u128) * 0x1_0000_0000_0000 + (g[5] as u128)
        * 0x1_0000_0000 + (g[6] as u128) * 0x1_0000 + (g[7] as u128)
}

/// Reads an address in groups of hexadecimal digits.
fn scan_long(s: &Vec<char>) -> (r: Option<u128>)
    ensures
        r == groups_of(s@),
{
    let (mut head, e) = scan_groups(s, 0, 8);
    let ghost head_spec = groups(s@, 0, 8).0;
    if head.len() == 8 {
        if e == s.len() {
            assert(Seq::new(8, |i: int| head[i] as nat) =~= head_spec);
            return Some(join_groups(&head));
        }
        return None;
    }
    if !(e < s.len() && s[e] == ':' && e + 1 < s.len() && s[e + 1] == ':') {
        return None;
    }
    let (mut tail, end) = scan_groups(s, e + 2, 7 - head.len());
    let ghost tail_spec = groups(s@, e + 2, (7 - head.len()) as nat).0;
    if end != s.len() {
        return None;
    }
    let missing: usize = 8 - head.len() - tail.len();
    let ghost head_len = head.len();
    let mut k: usize = 0;
    while k < missing
        invariant
            k <= missing,
            head.len() == head_len + k,
            head_len + missing + tail.len() == 8,
            forall|i: int| 0 <= i < head_len ==> head[i] as nat == head_spec[i],
            forall|i: int| head_len <= i < head.len() ==> head[i] == 0,
        decreases missing - k,
    {
        head.push(0);
        k += 1;
    }
    head.append(&mut tail);
    assert(Seq::new(8, |i: int| head[i] as nat) =~= head_spec + zero_groups(missing as nat)
        + tail_spec);
    Some(join_groups(&head))
}

/// Reads an address: a dotted quad, or groups of hexadecimal digits.
fn scan_address(s: &Vec<char>) -> (r: Option<IpAddress>)
    ensures
        r == address_of(s@),
{
    match scan_quad(s) {
        Some(a) => Some(IpAddress::V4(a)),
        None => match scan_long(s) {
            Some(a) => Some(IpAddress::V6(a)),
            None => None,
        },
    }
}

/// Reads an address from its text: `a.b.c.d` with each field a numeral from
/// 0 to 255 without leading zeros, or groups of one to four hexadecimal
/// digits with colons between them, eight in all or fewer with `::` in one
/// place.
pub fn parse_address(text: &str) -> (r: Option<IpAddress>)
    ensures
        r == address_of(text@),
{
    let s = chars_of(text);
    scan_address(&s)
}

/// The part of `s` from `from` up to `to`.
fn part(s: &Vec<char>, from: usize, to: usize) -> (r: Vec<char>)
    requires
        from <= to <= s.len(),
    ensures
        r@ == s@.subrange(from as int, to as int),
{
    let mut out: Vec<char> = Vec::new();
    let mut i: usize = from;
    while i < to
        invariant
            from <= i <= to,
            to <= s.len(),
            out@ == s@.subrange(from as int, i as int),
        decreases to - i,
    {
        out.push(s[i]);
        assert(out@ =~= s@.subrange(from as int, i + 1));
        i += 1;
    }
    out
}

/// Reads an address block from its text: an address, alone or followed by
/// a slash and the length of the prefix.
pub fn parse_block(text: &str) -> (r: Option<IpBlock>)
    ensures
        r == block_of(text@),
        r matches Some(b) ==> b.well_formed(),
{
    let s = chars_of(text);
    let mut cut: usize = 0;
    while cut < s.len() && s[cut] != '/'
        invariant
            cut <= s.len(),
            slash_at(s@, 0) == slash_at(s@, cut as int),
        decreases s.len() - cut,
    {
        cut += 1;
    }
    let front = part(&s, 0, cut);
    assert(front@ =~= s@.take(cut as int));
    match scan_address(&front) {
        None => None,
        Some(a) => {
            if cut == s.len() {
                Some(IpBlock::exact(a))
            } else {
                let back = part(&s, cut + 1, s.len());
                assert(back@ =~= s@.skip(cut + 1));
                let limit: u32 = match a {
                    IpAddress::V4(_) => 32,
                    IpAddress::V6(_) => 128,
                };
                let (n, end) = scan_field(&back, 0, limit);
                proof {
                    lemma_run_end(back@, 0);
                    if end == back.len() {
                        assert(back@.subrange(0, end as int) =~= back@);
                    } else {
                        assert(!is_digit(back@[end as int]));
                    }
                }
                match n {
                    Some(len) => {
                        if end == back.len() {
                            Some(IpBlock { base: a, prefix_len: len as u8 })
                        } else {
                            None
                        }
                    },
                    None => {
                        proof {
                            if end != back.len() {
                                assert(!is_numeral(back@));
                            }
                        }
                        None
                    },
                }
            }
        },
    }
}

/// Whether some entry of the list writes a block that holds the address.
/// An entry that writes no block holds nothing.
pub open spec fn any_block_holds(entries: Seq<String>, addr: IpAddress) -> bool {
    exists|i: int|
        0 <= i < entries.len() && block_of((#[trigger] entries[i])@) is Some && block_of(
            entries[i]@,
        )->0.holds(addr)
}

/// Whether some entry of the set writes a block that holds the address.
pub open spec fn block_set_holds(entries: Set<Seq<char>>, addr: IpAddress) -> bool {
    exists|entry: Seq<char>| #[trigger]
        entries.contains(entry) && block_of(entry) is Some && block_of(entry)->0.holds(addr)
}

/// Whether an entry of a list holds an address depends on the entries as a
/// set only.
pub proof fn lemma_blocks_as_set(entries: Seq<String>, addr: IpAddress)
    ensures
        any_block_holds(entries, addr) == block_set_holds(text_set(entries), addr),
{
    if any_block_holds(entries, addr) {
        let i = choose|i: int|
            0 <= i < entries.len() && block_of((#[trigger] entries[i])@) is Some && block_of(
                entries[i]@,
            )->0.holds(addr);
        assert(text_set(entries).contains(entries[i]@));
    }
    if block_set_holds(text_set(entries), addr) {
        let entry = choose|entry: Seq<char>| #[trigger]
            text_set(entries).contains(entry) && block_of(entry) is Some && block_of(
                entry,
            )->0.holds(addr);
        let i = choose|i: int| 0 <= i < entries.len() && (#[trigger] entries[i])@ == entry;
        assert(block_of(entries[i]@) is Some && block_of(entries[i]@)->0.holds(addr));
    }
}

/// Whether some entry of the list writes a block that holds the address.
pub fn in_any_block(entries: &Vec<String>, addr: &IpAddress) -> (r: bool)
    ensures
        r == any_block_holds(entries@, *addr),
{
    let mut i: usize = 0;
    while i < entries.len()
        invariant
            i <= entries.len(),
            forall|j: int|
                0 <= j < i ==> !(block_of((#[trigger] entries[j])@) is Some && block_of(
                    entries[j]@,
                )->0.holds(*addr)),
        decreases entries.len() - i,
    {
        match parse_block(entries[i].as_str()) {
            Some(b) => {
                if b.contains(addr) {
                    return true;
                }
            },
            None => {},
        }
        i += 1;
    }
    false
}

} // verus!
